use vstd::prelude::*;
use vstd::string::StringExecFns;

use crate::config::AppConfig;
use crate::json::{escape_chars, push_escaped, JsonValue};

verus! {

/// The project website noted in the extra fields: the value of the first
/// `website` entry when it is a string, nothing otherwise.
pub open spec fn website_in(v: Seq<(String, JsonValue)>) -> Seq<char>
    decreases v.len(),
{
    if v.len() == 0 {
        Seq::empty()
    } else if v[0].0@ == "website"@ {
        match v[0].1 {
            JsonValue::Str(s) => s@,
            _ => Seq::empty(),
        }
    } else {
        website_in(v.subrange(1, v.len() as int))
    }
}

/// The configured website, read from the extra fields.
pub open spec fn website_of(extra: Option<Vec<(String, JsonValue)>>) -> Seq<char> {
    match extra {
        None => Seq::empty(),
        Some(v) => website_in(v@),
    }
}

/// The request document that creates a marketplace project: the
/// project's name and website, its policy expiry, a supply of one per
/// token, and the given metadata template embedded as a string.
pub open spec fn new_project_chars(
    config: AppConfig,
    metadata: String,
    expiration_time: String,
) -> Seq<char> {
    "{\"projectname\":\""@ + escape_chars(config.name@) + "\",\"description\":null,\"projecturl\":\""@
        + escape_chars(website_of(config.extra)) + "\",\"tokennamePrefix\":null,\"policyExpires\":true,\"policyLocksDateTime\":\""@
        + escape_chars(expiration_time@) + "\",\"maxNftSupply\":1,\"policy\":null,\"metadata\":\""@
        + escape_chars(metadata@) + "\",\"addressExpiretime\":20}"@
}

/// Appends the configured website, escaped.
fn push_website(out: &mut String, extra: &Option<Vec<(String, JsonValue)>>)
    ensures
        final(out)@ == old(out)@ + escape_chars(website_of(*extra)),
{
    match extra {
        None => {
            assert(out@ =~= old(out)@ + escape_chars(website_of(*extra)));
        },
        Some(v) => {
            let ghost full = v@;
            let n = v.len();
            let mut i: usize = 0;
            proof {
                assert(full.subrange(0, n as int) =~= full);
            }
            while i < n
                invariant
                    i <= n,
                    n == full.len(),
                    full == v@,
                    out@ == old(out)@,
                    website_of(*extra) == website_in(full),
                    website_in(full) == website_in(full.subrange(i as int, n as int)),
                decreases n - i,
            {
                let ghost suffix = full.subrange(i as int, n as int);
                proof {
                    assert(suffix[0] == full[i as int]);
                    assert(suffix.subrange(1, suffix.len() as int) =~= full.subrange(
                        i as int + 1,
                        n as int,
                    ));
                }
                if crate::strutil::str_eq(v[i].0.as_str(), "website") {
                    match &v[i].1 {
                        JsonValue::Str(s) => {
                            push_escaped(out, s.as_str());
                        },
                        _ => {},
                    }
                    assert(out@ =~= old(out)@ + escape_chars(website_of(*extra)));
                    return ;
                }
                i += 1;
            }
            proof {
                assert(full.subrange(n as int, n as int) =~= Seq::<(String, JsonValue)>::empty());
                assert(out@ =~= old(out)@ + escape_chars(website_of(*extra)));
            }
        },
    }
}

/// Builds the project-creation request document for the marketplace.
///
/// A native-script policy must expire to mint or burn no further tokens
/// afterwards, so the policy expiry is always set, locking at the given
/// time. The supply of each unique token is one, and twenty minutes are
/// reserved for minting against one address.
pub fn new_project_template(config: &AppConfig, metadata: String, expiration_time: String) -> (r:
    String)
    ensures
        r@ == new_project_chars(*config, metadata, expiration_time),
{
    proof {
        reveal_strlit("{\"projectname\":\"");
        reveal_strlit("\",\"description\":null,\"projecturl\":\"");
        reveal_strlit("\",\"tokennamePrefix\":null,\"policyExpires\":true,\"policyLocksDateTime\":\"");
        reveal_strlit("\",\"maxNftSupply\":1,\"policy\":null,\"metadata\":\"");
        reveal_strlit("\",\"addressExpiretime\":20}");
    }
    let mut out = String::from_str("{\"projectname\":\"");
    push_escaped(&mut out, config.name.as_str());
    out.append("\",\"description\":null,\"projecturl\":\"");
    push_website(&mut out, &config.extra);
    out.append("\",\"tokennamePrefix\":null,\"policyExpires\":true,\"policyLocksDateTime\":\"");
    push_escaped(&mut out, expiration_time.as_str());
    out.append("\",\"maxNftSupply\":1,\"policy\":null,\"metadata\":\"");
    push_escaped(&mut out, metadata.as_str());
    out.append("\",\"addressExpiretime\":20}");
    proof {
        assert(out@ =~= new_project_chars(*config, metadata, expiration_time));
    }
    out
}

} // verus!
