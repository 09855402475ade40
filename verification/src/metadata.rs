use vstd::prelude::*;
use vstd::string::StringExecFns;

use crate::config::{AppConfig, LayerConfig};
use crate::json::{entry_chars, escape_chars, push_escaped, push_json, JsonValue};
use crate::layers::{display_of, display_str};
use crate::strutil::{dec_chars, push_dec};

verus! {

/// One attribute of a rendered output: a layer's display name and the
/// selected trait's name.
pub struct Attribute {
    pub name: String,
    pub value: String,
}

/// The text of one attribute entry: `"name":"value"`, escaped.
pub open spec fn attr_entry_chars(a: Attribute) -> Seq<char> {
    seq!['"'] + escape_chars(a.name@) + "\":\""@ + escape_chars(a.value@) + seq!['"']
}

/// The comma-separated texts of the attribute entries.
pub open spec fn attrs_chars(attrs: Seq<Attribute>) -> Seq<char>
    decreases attrs.len(),
{
    if attrs.len() == 0 {
        Seq::empty()
    } else {
        attrs_chars(attrs.drop_last()) + (
        if attrs.len() > 1 {
            seq![',']
        } else {
            Seq::<char>::empty()
        }) + attr_entry_chars(attrs.last())
    }
}

/// The flat attribute map of one output, as JSON text.
pub open spec fn attributes_json_chars(attrs: Seq<Attribute>) -> Seq<char> {
    seq!['{'] + attrs_chars(attrs) + seq!['}']
}

/// Serializes the flat attribute map of one output.
pub fn attributes_json(attrs: &Vec<Attribute>) -> (r: String)
    ensures
        r@ == attributes_json_chars(attrs@),
{
    proof {
        reveal_strlit("{");
        reveal_strlit("}");
    }
    let mut out = String::from_str("{");
    push_attrs(&mut out, attrs);
    out.append("}");
    proof {
        assert(out@ =~= attributes_json_chars(attrs@));
    }
    out
}

/// Appends the comma-separated attribute entries.
fn push_attrs(out: &mut String, attrs: &Vec<Attribute>)
    ensures
        final(out)@ == old(out)@ + attrs_chars(attrs@),
{
    let n = attrs.len();
    let mut i: usize = 0;
    while i < n
        invariant
            i <= n,
            n == attrs@.len(),
            out@ == old(out)@ + attrs_chars(attrs@.subrange(0, i as int)),
        decreases n - i,
    {
        proof {
            reveal_strlit(",");
            reveal_strlit("\"");
            reveal_strlit("\":\"");
            assert(attrs@.subrange(0, i as int + 1).drop_last() =~= attrs@.subrange(0, i as int));
        }
        if i > 0 {
            out.append(",");
        }
        out.append("\"");
        push_escaped(out, attrs[i].name.as_str());
        out.append("\":\"");
        push_escaped(out, attrs[i].value.as_str());
        out.append("\"");
        assert(out@ =~= old(out)@ + attrs_chars(attrs@.subrange(0, i as int + 1)));
        i += 1;
    }
    proof {
        assert(attrs@.subrange(0, attrs@.len() as int) =~= attrs@);
    }
}

/// The extra key/value entries, each preceded by a comma so that they can
/// follow the fixed entries of the metadata object.
pub open spec fn extra_list_chars(v: Seq<(String, JsonValue)>) -> Seq<char>
    decreases v.len(),
{
    if v.len() == 0 {
        Seq::empty()
    } else {
        extra_list_chars(v.drop_last()) + seq![','] + entry_chars(v.last())
    }
}

/// The text the configured extra fields add to a metadata object.
pub open spec fn extra_entries_chars(extra: Option<Vec<(String, JsonValue)>>) -> Seq<char> {
    match extra {
        None => Seq::empty(),
        Some(v) => extra_list_chars(v@),
    }
}

/// Appends the extra entries, one leading comma each.
fn push_extra(out: &mut String, extra: &Option<Vec<(String, JsonValue)>>)
    ensures
        final(out)@ == old(out)@ + extra_entries_chars(*extra),
{
    match extra {
        None => {},
        Some(v) => {
            let n = v.len();
            let mut i: usize = 0;
            while i < n
                invariant
                    i <= n,
                    n == v@.len(),
                    out@ == old(out)@ + extra_list_chars(v@.subrange(0, i as int)),
                decreases n - i,
            {
                proof {
                    reveal_strlit(",\"");
                    reveal_strlit("\":");
                    assert(v@.subrange(0, i as int + 1).drop_last() =~= v@.subrange(0, i as int));
                }
                out.append(",\"");
                push_escaped(out, v[i].0.as_str());
                out.append("\":");
                push_json(&v[i].1, out);
                proof {
                    let e = v@[i as int];
                    assert(out@ =~= old(out)@ + extra_list_chars(v@.subrange(0, i as int))
                        + seq![','] + entry_chars(e));
                    assert(out@ =~= old(out)@ + extra_list_chars(v@.subrange(0, i as int + 1)));
                }
                i += 1;
            }
            proof {
                assert(v@.subrange(0, v@.len() as int) =~= v@);
            }
        },
    }
}

/// One attribute entry of the metadata template: the layer's display
/// name, valued with the placeholder of its position.
pub open spec fn template_attr_entry(cfg: LayerConfig, i: int) -> Seq<char> {
    seq!['"'] + escape_chars(display_of(cfg)) + "\":\"<attribute"@ + dec_chars(i) + ">\""@
}

/// The template's attribute entries, one per declared layer, in order.
pub open spec fn template_attrs_chars(layers: Seq<LayerConfig>) -> Seq<char>
    decreases layers.len(),
{
    if layers.len() == 0 {
        Seq::empty()
    } else {
        template_attrs_chars(layers.drop_last()) + (
        if layers.len() > 1 {
            seq![',']
        } else {
            Seq::<char>::empty()
        }) + template_attr_entry(layers.last(), layers.len() - 1)
    }
}

/// The marketplace metadata template of a project: every resolved-later
/// field holds its placeholder token, and each layer's attribute holds
/// the placeholder of its position.
pub open spec fn template_chars(config: AppConfig) -> Seq<char> {
    "{\"721\":{\"<policy_id>\":{\"<asset_name>\":{\"name\":\"<display_name>\",\"image\":\"<ipfs_link>\",\"mediaType\":\"<mime_type>\",\"files\":[{\"name\":\"<display_name>\",\"mediaType\":\"<mime_type>\",\"src\":\"<ipfs_link>\"}],\"attributes\":{"@
        + template_attrs_chars(config.layers@) + "}"@ + extra_entries_chars(config.extra)
        + "}},\"version\":\"1.0\"}}"@
}

/// Builds the metadata template that a project uploads to the
/// marketplace before any output exists.
pub fn build_template(config: &AppConfig) -> (r: String)
    ensures
        r@ == template_chars(*config),
{
    proof {
        reveal_strlit(
            "{\"721\":{\"<policy_id>\":{\"<asset_name>\":{\"name\":\"<display_name>\",\"image\":\"<ipfs_link>\",\"mediaType\":\"<mime_type>\",\"files\":[{\"name\":\"<display_name>\",\"mediaType\":\"<mime_type>\",\"src\":\"<ipfs_link>\"}],\"attributes\":{",
        );
        reveal_strlit("}");
        reveal_strlit("}},\"version\":\"1.0\"}}");
    }
    let mut out = String::from_str(
        "{\"721\":{\"<policy_id>\":{\"<asset_name>\":{\"name\":\"<display_name>\",\"image\":\"<ipfs_link>\",\"mediaType\":\"<mime_type>\",\"files\":[{\"name\":\"<display_name>\",\"mediaType\":\"<mime_type>\",\"src\":\"<ipfs_link>\"}],\"attributes\":{",
    );
    let ghost base = out@;
    let n = config.layers.len();
    let mut i: usize = 0;
    while i < n
        invariant
            i <= n,
            n == config.layers@.len(),
            out@ == base + template_attrs_chars(config.layers@.subrange(0, i as int)),
        decreases n - i,
    {
        proof {
            reveal_strlit(",");
            reveal_strlit("\"");
            reveal_strlit("\":\"<attribute");
            reveal_strlit(">\"");
            assert(config.layers@.subrange(0, i as int + 1).drop_last() =~= config.layers@.subrange(
                0,
                i as int,
            ));
        }
        if i > 0 {
            out.append(",");
        }
        out.append("\"");
        push_escaped(&mut out, display_str(&config.layers[i]));
        out.append("\":\"<attribute");
        push_dec(&mut out, i as u64);
        out.append(">\"");
        assert(out@ =~= base + template_attrs_chars(config.layers@.subrange(0, i as int + 1)));
        i += 1;
    }
    proof {
        assert(config.layers@.subrange(0, n as int) =~= config.layers@);
    }
    out.append("}");
    push_extra(&mut out, &config.extra);
    out.append("}},\"version\":\"1.0\"}}");
    proof {
        assert(out@ =~= template_chars(*config));
    }
    out
}

/// The name an output shows: its display name (or asset name) and its
/// number.
pub open spec fn title_chars(name: String, display_name: Option<&String>, count: int) -> Seq<
    char,
> {
    escape_chars(
        match display_name {
            Some(d) => d@,
            None => name@,
        },
    ) + " #"@ + dec_chars(count)
}

/// The object key the output's metadata stands under: the asset name
/// with the output's number appended.
pub open spec fn asset_key_chars(name: String, count: int) -> Seq<char> {
    escape_chars(name@) + dec_chars(count)
}

/// The metadata document of one rendered output.
pub open spec fn with_attributes_chars(
    attributes: Seq<Attribute>,
    policy_id: Option<String>,
    name: String,
    display_name: Option<&String>,
    extra: Option<Vec<(String, JsonValue)>>,
    count: int,
) -> Seq<char> {
    "{\"721\":{\""@ + (
    match policy_id {
        Some(p) => escape_chars(p@),
        None => "<policy_id>"@,
    }) + "\":{\""@ + asset_key_chars(name, count) + "\":{\"name\":\""@ + title_chars(
        name,
        display_name,
        count,
    ) + "\",\"image\":\"<ipfs_link>\",\"mediaType\":\"image/png\",\"files\":[{\"name\":\""@
        + title_chars(name, display_name, count)
        + "\",\"mediaType\":\"image/png\",\"src\":\"<ipfs_link>\"}],\"attributes\":{"@
        + attrs_chars(attributes) + "}"@ + extra_entries_chars(extra) + "}},\"version\":\"1.0\"}}"@
}

/// Appends the output's title: display name or asset name, then ` #` and
/// the output's number.
fn push_title(out: &mut String, name: &String, display_name: Option<&String>, count: usize)
    ensures
        final(out)@ == old(out)@ + title_chars(*name, display_name, count as int),
{
    proof {
        reveal_strlit(" #");
    }
    match display_name {
        Some(d) => push_escaped(out, d.as_str()),
        None => push_escaped(out, name.as_str()),
    }
    out.append(" #");
    push_dec(out, count as u64);
    proof {
        assert(out@ =~= old(out)@ + title_chars(*name, display_name, count as int));
    }
}

/// Builds the metadata document of one rendered output: the attribute
/// map, the configured descriptive fields, and placeholder tokens for
/// everything resolved after upload.
pub fn build_with_attributes(
    attributes: Vec<Attribute>,
    policy_id: Option<String>,
    name: String,
    display_name: Option<&String>,
    extra: Option<Vec<(String, JsonValue)>>,
    count: usize,
) -> (r: String)
    ensures
        r@ == with_attributes_chars(
            attributes@,
            policy_id,
            name,
            display_name,
            extra,
            count as int,
        ),
{
    proof {
        reveal_strlit("{\"721\":{\"");
        reveal_strlit("<policy_id>");
        reveal_strlit("\":{\"");
        reveal_strlit("\":{\"name\":\"");
        reveal_strlit(
            "\",\"image\":\"<ipfs_link>\",\"mediaType\":\"image/png\",\"files\":[{\"name\":\"",
        );
        reveal_strlit("\",\"mediaType\":\"image/png\",\"src\":\"<ipfs_link>\"}],\"attributes\":{");
        reveal_strlit("}");
        reveal_strlit("}},\"version\":\"1.0\"}}");
    }
    let mut out = String::from_str("{\"721\":{\"");
    match &policy_id {
        Some(p) => push_escaped(&mut out, p.as_str()),
        None => out.append("<policy_id>"),
    }
    out.append("\":{\"");
    push_escaped(&mut out, name.as_str());
    push_dec(&mut out, count as u64);
    out.append("\":{\"name\":\"");
    push_title(&mut out, &name, display_name, count);
    out.append("\",\"image\":\"<ipfs_link>\",\"mediaType\":\"image/png\",\"files\":[{\"name\":\"");
    push_title(&mut out, &name, display_name, count);
    out.append("\",\"mediaType\":\"image/png\",\"src\":\"<ipfs_link>\"}],\"attributes\":{");
    push_attrs(&mut out, &attributes);
    out.append("}");
    push_extra(&mut out, &extra);
    out.append("}},\"version\":\"1.0\"}}");
    proof {
        assert(out@ =~= with_attributes_chars(
            attributes@,
            policy_id,
            name,
            display_name,
            extra,
            count as int,
        ));
    }
    out
}

} // verus!
