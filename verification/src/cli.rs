use vstd::prelude::*;

verus! {

/// Arguments of the project-creation command.
pub struct NewCommand {
    /// The mode for processing attribute rarity.
    pub mode: Mode,
}

/// Arguments of the commands that read a project config file.
pub struct ConfigArgs {
    /// Path to the project's config file.
    pub config: String,
}

/// The commands of the collection manager.
pub enum Commands {
    /// Store the marketplace API key globally.
    Auth,
    /// Clean the output directory.
    Clean,
    /// Generate a collection.
    Gen(ConfigArgs),
    /// Output a metadata template for the marketplace.
    Metadata(ConfigArgs),
    /// Create a new project.
    New { name: String },
    /// Upload a generated collection to the marketplace.
    Upload(ConfigArgs),
}

/// How trait rarity is encoded in the image tree: fixed rarity folders,
/// or a `#<weight>` suffix on each file name.
#[derive(Clone, Copy, Debug, PartialEq, Eq, Structural)]
pub enum Mode {
    Simple,
    Advanced,
}

impl Default for Mode {
    fn default() -> (r: Self)
        ensures
            r == Mode::Simple,
    {
        Mode::Simple
    }
}

impl Mode {
    /// The mode's name, as the command line and the config file spell it.
    pub fn as_str(&self) -> (r: &'static str)
        ensures
            self is Simple ==> r@ == "simple"@,
            self is Advanced ==> r@ == "advanced"@,
    {
        match self {
            Mode::Simple => "simple",
            Mode::Advanced => "advanced",
        }
    }
}

} // verus!
