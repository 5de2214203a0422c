//! Rewriting the listen sections of a node's configuration document.
//!
//! The document itself is a semi-structured value of an outside crate whose
//! full schema this library does not own; the library reads and rewrites
//! only the `listen` lists of named sections, through trusted accessors,
//! and everything else in the document is preserved verbatim.

use vstd::prelude::*;
use crate::address::parsed_of;
use crate::address::rewrite_port;
use crate::address::address_parses;
use crate::address::first_port;
use crate::address::first_transport_port;
use crate::address::spec_rewrite_port;
use crate::types::AddressError;
use crate::types::NodeConfig;
use crate::types::NodeError;

verus! {

#[verifier::external_type_specification]
#[verifier::external_body]
pub struct ExValue(serde_json::Value);

/// The listen list of one section of a configuration document: `None` where
/// the section or its `listen` entry is absent or not a list; otherwise one
/// element per list entry — the text of a string entry, `None` for an entry
/// of any other kind.
pub uninterp spec fn doc_listen(doc: serde_json::Value, section: Seq<char>) -> Option<
    Seq<Option<Seq<char>>>,
>;

/// An abstraction of everything a configuration document holds apart from
/// the string entries of its sections' listen lists: host names, peer
/// identities, every unrelated key.  Preserving it means none of that is
/// touched.
pub uninterp spec fn doc_rest(doc: serde_json::Value) -> int;

/// Whether every string entry of a section's listen list is a valid
/// encoded address (vacuously true where the list is absent).
pub open spec fn entries_parse(es: Seq<Option<Seq<char>>>) -> bool {
    forall|i: int|
        0 <= i < es.len() ==> (#[trigger] es[i] matches Some(s) ==> parsed_of(s) is Some)
}

/// Whether a section's listen list can be rewritten without error.
pub open spec fn section_rewritable(doc: serde_json::Value, section: Seq<char>) -> bool {
    doc_listen(doc, section) matches Some(es) ==> entries_parse(es)
}

/// A listen list after the rewrite: each string entry rewritten to the new
/// port, each other entry untouched.
pub open spec fn rewritten_listen(es: Seq<Option<Seq<char>>>, port: u16) -> Seq<
    Option<Seq<char>>,
> {
    es.map_values(
        |e: Option<Seq<char>>|
            match e {
                Option::Some(s) => Option::Some(spec_rewrite_port(s, port)->Some_0),
                Option::None => Option::None::<Seq<char>>,
            },
    )
}

/// How a document after a completed section rewrite relates to the one
/// before: an absent list leaves the document untouched; otherwise the
/// section's list is rewritten entry by entry, every other section's list
/// is unchanged, and so is everything else in the document.
pub open spec fn listen_updated(
    pre: serde_json::Value,
    post: serde_json::Value,
    section: Seq<char>,
    port: u16,
) -> bool {
    &&& (doc_listen(pre, section) is None ==> post == pre)
    &&& (doc_listen(pre, section) matches Some(es) ==> doc_listen(post, section) == Some(
        rewritten_listen(es, port),
    ))
    &&& (forall|other: Seq<char>|
        other != section ==> #[trigger] doc_listen(post, other) == doc_listen(pre, other))
    &&& doc_rest(post) == doc_rest(pre)
}

/// Relies on `serde_json::Value::get` and `Value::as_array`: the length of
/// `doc[section]["listen"]` where that is a list, `None` where the section
/// or the entry is absent or not a list.
#[verifier::external_body]
fn listen_len(doc: &serde_json::Value, section: &str) -> (r: Option<usize>)
    ensures
        r is Some <==> doc_listen(*doc, section@) is Some,
        r matches Some(n) ==> doc_listen(*doc, section@) matches Some(es) && es.len() == n,
{
    doc.get(section).and_then(|s| s.get("listen")).and_then(|l| l.as_array()).map(|a| a.len())
}

/// Relies on `serde_json::Value::as_str`: entry `i` of the listen list as
/// text, `None` where that entry is not a string.
#[verifier::external_body]
fn listen_get(doc: &serde_json::Value, section: &str, i: usize) -> (r: Option<String>)
    requires
        doc_listen(*doc, section@) is Some,
        i < doc_listen(*doc, section@)->Some_0.len(),
    ensures
        match r {
            Some(s) => doc_listen(*doc, section@)->Some_0[i as int] == Some(s@),
            None => doc_listen(*doc, section@)->Some_0[i as int] is None,
        },
{
    let arr = doc.get(section).and_then(|s| s.get("listen")).and_then(|l| l.as_array());
    arr.and_then(|a| a.get(i)).and_then(|e| e.as_str()).map(|s| s.to_owned())
}

/// Relies on `serde_json`'s index assignment: replaces entry `i` of the
/// section's listen list with the given text and changes nothing else in
/// the document.
#[verifier::external_body]
fn listen_set(doc: &mut serde_json::Value, section: &str, i: usize, value: String)
    requires
        doc_listen(*old(doc), section@) is Some,
        i < doc_listen(*old(doc), section@)->Some_0.len(),
        doc_listen(*old(doc), section@)->Some_0[i as int] is Some,
    ensures
        doc_listen(*final(doc), section@) == Some(
            doc_listen(*old(doc), section@)->Some_0.update(i as int, Some(value@)),
        ),
        forall|other: Seq<char>|
            other != section@ ==> #[trigger] doc_listen(*final(doc), other) == doc_listen(
                *old(doc),
                other,
            ),
        doc_rest(*final(doc)) == doc_rest(*old(doc)),
{
    doc[section]["listen"][i] = serde_json::Value::String(value);
}

/// What parsing a configuration text yields: `None` where the text is not
/// a valid configuration, otherwise the document — a function of the text
/// alone.
pub uninterp spec fn config_doc_of(text: Seq<char>) -> Option<serde_json::Value>;

/// What re-encoding a document yields: `None` where the document cannot be
/// represented as configuration text — a function of the document alone.
pub uninterp spec fn config_text_of(doc: serde_json::Value) -> Option<Seq<char>>;

/// Relies on `toml::from_str`: parses configuration text into a structured
/// document, `None` where the text is not a valid configuration.
#[verifier::external_body]
fn parse_config_text(text: &str) -> (r: Option<serde_json::Value>)
    ensures
        r == config_doc_of(text@),
{
    toml::from_str::<serde_json::Value>(text).ok()
}

/// Relies on `toml::to_string`: re-encodes the document as configuration
/// text, `None` where the document cannot be represented.
#[verifier::external_body]
fn config_to_text(doc: &serde_json::Value) -> (r: Option<String>)
    ensures
        r is Some <==> config_text_of(*doc) is Some,
        r matches Some(t) ==> Some(t@) == config_text_of(*doc),
{
    toml::to_string(doc).ok()
}

/// Whether every string entry of the section's listen list is a valid
/// encoded address, reading the document without changing it.
fn listen_rewritable(doc: &serde_json::Value, section: &str) -> (r: bool)
    ensures
        r == section_rewritable(*doc, section@),
{
    let n = match listen_len(doc, section) {
        None => {
            return true;
        },
        Some(n) => n,
    };
    let ghost es = doc_listen(*doc, section@)->Some_0;
    let mut i: usize = 0;
    while i < n
        invariant
            i <= n,
            doc_listen(*doc, section@) is Some,
            es == doc_listen(*doc, section@)->Some_0,
            n == es.len(),
            forall|j: int| 0 <= j < i ==> (#[trigger] es[j] matches Some(s) ==> parsed_of(s) is Some),
        decreases n - i,
    {
        match listen_get(doc, section, i) {
            Some(s) => {
                if !address_parses(s.as_str()) {
                    proof {
                        assert(es[i as int] matches Some(t) && parsed_of(t) is None);
                    }
                    return false;
                }
            },
            None => {},
        }
        i = i + 1;
    }
    true
}

/// Rewrites every address of `doc[section]["listen"]` to the new port.
///
/// An absent section or listen list is a no-op success, unconditionally —
/// there is nothing to rewrite, so not even the port is judged.  On any
/// error — a port that does not fit sixteen bits, or a string entry that is
/// not a valid encoded address — the document is left completely untouched;
/// only a fully validated rewrite is applied.
pub fn update_listen_section(doc: &mut serde_json::Value, section: &str, new_port: u32) -> (r:
    Result<(), AddressError>)
    ensures
        doc_listen(*old(doc), section@) is None ==> r == Ok::<(), AddressError>(()) && *final(doc)
            == *old(doc),
        doc_listen(*old(doc), section@) is Some && new_port > 0xFFFF ==> r == Err::<
            (),
            AddressError,
        >(AddressError::InvalidPort) && *final(doc) == *old(doc),
        doc_listen(*old(doc), section@) is Some && new_port <= 0xFFFF && !section_rewritable(
            *old(doc),
            section@,
        ) ==> r == Err::<(), AddressError>(AddressError::Malformed) && *final(doc) == *old(doc),
        doc_listen(*old(doc), section@) is Some && new_port <= 0xFFFF && section_rewritable(
            *old(doc),
            section@,
        ) ==> r == Ok::<(), AddressError>(()) && listen_updated(
            *old(doc),
            *final(doc),
            section@,
            new_port as u16,
        ),
{
    let n = match listen_len(doc, section) {
        None => {
            return Ok(());
        },
        Some(n) => n,
    };
    if new_port > 0xFFFF {
        return Err(AddressError::InvalidPort);
    }
    let ghost es = doc_listen(*doc, section@)->Some_0;
    let ghost p = new_port as u16;

    let mut repl: Vec<Option<String>> = Vec::new();
    let mut i: usize = 0;
    while i < n
        invariant
            i <= n,
            new_port <= 0xFFFF,
            p == new_port as u16,
            *doc == *old(doc),
            doc_listen(*doc, section@) is Some,
            es == doc_listen(*doc, section@)->Some_0,
            n == es.len(),
            repl@.len() == i,
            forall|j: int|
                0 <= j < i ==> (#[trigger] es[j] matches Some(s) ==> repl@[j] matches Some(t)
                    && t@ == spec_rewrite_port(s, p)->Some_0 && parsed_of(s) is Some),
            forall|j: int| 0 <= j < i ==> (es[j] is None ==> #[trigger] repl@[j] is None),
        decreases n - i,
    {
        match listen_get(doc, section, i) {
            Some(s) => {
                match rewrite_port(s.as_str(), new_port) {
                    Ok(t) => {
                        repl.push(Some(t));
                    },
                    Err(AddressError::InvalidPort) => {
                        proof {
                            assert(false);
                        }
                        return Err(AddressError::Malformed);
                    },
                    Err(AddressError::Malformed) => {
                        proof {
                            assert(es[i as int] == Some(s@));
                            assert(parsed_of(s@) is None);
                            assert(!entries_parse(es));
                        }
                        return Err(AddressError::Malformed);
                    },
                }
            },
            None => {
                repl.push(None);
            },
        }
        i = i + 1;
    }

    let mut k: usize = 0;
    while k < n
        invariant
            k <= n,
            new_port <= 0xFFFF,
            p == new_port as u16,
            doc_listen(*old(doc), section@) is Some,
            es == doc_listen(*old(doc), section@)->Some_0,
            n == es.len(),
            repl@.len() == n,
            forall|j: int|
                0 <= j < n ==> (#[trigger] es[j] matches Some(s) ==> repl@[j] matches Some(t)
                    && t@ == spec_rewrite_port(s, p)->Some_0 && parsed_of(s) is Some),
            forall|j: int| 0 <= j < n ==> (es[j] is None ==> #[trigger] repl@[j] is None),
            doc_listen(*doc, section@) == Some(
                rewritten_listen(es, p).take(k as int) + es.skip(k as int),
            ),
            forall|other: Seq<char>|
                other != section@ ==> #[trigger] doc_listen(*doc, other) == doc_listen(
                    *old(doc),
                    other,
                ),
            doc_rest(*doc) == doc_rest(*old(doc)),
        decreases n - k,
    {
        let ghost before = rewritten_listen(es, p).take(k as int) + es.skip(k as int);
        match &repl[k] {
            Some(t) => {
                proof {
                    assert(es[k as int] is Some);
                    assert(before[k as int] == es[k as int]);
                }
                listen_set(doc, section, k, t.clone());
                proof {
                    assert(before.update(k as int, Some(t@)) =~= rewritten_listen(es, p).take(
                        k as int + 1,
                    ) + es.skip(k as int + 1));
                }
            },
            None => {
                proof {
                    assert(before =~= rewritten_listen(es, p).take(k as int + 1) + es.skip(
                        k as int + 1,
                    ));
                }
            },
        }
        k = k + 1;
    }
    proof {
        assert(rewritten_listen(es, p).take(n as int) + es.skip(n as int) =~= rewritten_listen(
            es,
            p,
        ));
    }
    Ok(())
}

/// The sequential verdict of a whole document rewrite: the `swarm` section
/// is judged first (its port, then its addresses), then the `server`
/// section; a section with no listen list raises no objection, not even to
/// its port, since there is nothing to rewrite.
pub open spec fn update_doc_verdict(
    pre: serde_json::Value,
    server_port: u32,
    swarm_port: u32,
) -> Option<NodeError> {
    if doc_listen(pre, "swarm"@) is Some && swarm_port > 0xFFFF {
        Option::Some(NodeError::InvalidPort)
    } else if !section_rewritable(pre, "swarm"@) {
        Option::Some(NodeError::AddressMalformed)
    } else if doc_listen(pre, "server"@) is Some && server_port > 0xFFFF {
        Option::Some(NodeError::InvalidPort)
    } else if !section_rewritable(pre, "server"@) {
        Option::Some(NodeError::AddressMalformed)
    } else {
        Option::None
    }
}

/// Rewrites both listen sections of a node's configuration document: the
/// `swarm` section to the swarm port, then the `server` section to the
/// server port.  A section with an absent listen list is untouched and
/// raises no objection, not even to its port.  On any error the document is
/// left completely untouched.
pub fn update_node_doc(doc: &mut serde_json::Value, server_port: u32, swarm_port: u32) -> (r:
    Result<(), NodeError>)
    ensures
        update_doc_verdict(*old(doc), server_port, swarm_port) matches Some(e) ==> r == Err::<
            (),
            NodeError,
        >(e) && *final(doc) == *old(doc),
        update_doc_verdict(*old(doc), server_port, swarm_port) is None ==> r == Ok::<
            (),
            NodeError,
        >(()) && exists|mid: serde_json::Value|
            #[trigger] listen_updated(*old(doc), mid, "swarm"@, swarm_port as u16)
                && listen_updated(mid, *final(doc), "server"@, server_port as u16),
{
    if listen_len(doc, "swarm").is_some() && swarm_port > 0xFFFF {
        return Err(NodeError::InvalidPort);
    }
    if !listen_rewritable(doc, "swarm") {
        return Err(NodeError::AddressMalformed);
    }
    if listen_len(doc, "server").is_some() && server_port > 0xFFFF {
        return Err(NodeError::InvalidPort);
    }
    if !listen_rewritable(doc, "server") {
        return Err(NodeError::AddressMalformed);
    }
    proof {
        reveal_strlit("swarm");
        reveal_strlit("server");
        assert("swarm"@.len() != "server"@.len());
    }
    match update_listen_section(doc, "swarm", swarm_port) {
        Ok(()) => {},
        Err(_) => {
            proof {
                assert(false);
            }
            return Err(NodeError::AddressMalformed);
        },
    }
    let ghost mid = *doc;
    match update_listen_section(doc, "server", server_port) {
        Ok(()) => {},
        Err(_) => {
            proof {
                assert(false);
            }
            return Err(NodeError::AddressMalformed);
        },
    }
    proof {
        assert(listen_updated(*old(doc), mid, "swarm"@, swarm_port as u16) && listen_updated(
            mid,
            *doc,
            "server"@,
            server_port as u16,
        ));
    }
    Ok(())
}

/// The first transport port of a section's listen list: that of its first
/// entry, where the list is present, the entry is a string and it parses.
pub open spec fn first_listen_port(doc: serde_json::Value, section: Seq<char>) -> Option<u32> {
    match doc_listen(doc, section) {
        Option::Some(es) => if es.len() > 0 {
            match es[0] {
                Option::Some(s) => match parsed_of(s) {
                    Option::Some(ps) => first_transport_port(ps),
                    Option::None => Option::None,
                },
                Option::None => Option::None,
            }
        } else {
            Option::None
        },
        Option::None => Option::None,
    }
}

/// The first transport port of the section's first listen entry.
fn section_port(doc: &serde_json::Value, section: &str) -> (r: Option<u32>)
    ensures
        r == first_listen_port(*doc, section@),
{
    let n = match listen_len(doc, section) {
        None => {
            return None;
        },
        Some(n) => n,
    };
    if n == 0 {
        return None;
    }
    match listen_get(doc, section, 0) {
        None => None,
        Some(s) => first_port(s.as_str()),
    }
}

/// The two network ports a node listens on, read from its configuration
/// document: the first transport port of the first `listen` entry of the
/// `server` section and of the `swarm` section.
pub fn ports_of_doc(doc: &serde_json::Value) -> (r: Option<NodeConfig>)
    ensures
        r matches Some(c) ==> Some(c.server_port) == first_listen_port(*doc, "server"@) && Some(
            c.swarm_port,
        ) == first_listen_port(*doc, "swarm"@),
        r is None ==> first_listen_port(*doc, "server"@) is None || first_listen_port(
            *doc,
            "swarm"@,
        ) is None,
{
    let server = section_port(doc, "server");
    let swarm = section_port(doc, "swarm");
    match server {
        Some(server_port) => match swarm {
            Some(swarm_port) => Some(NodeConfig { server_port, swarm_port }),
            None => None,
        },
        None => None,
    }
}

/// One complete rewrite chain from a configuration text: the text parses
/// to a document, `mid` is that document after the swarm rewrite, and
/// `post` is `mid` after the server rewrite.
pub open spec fn config_rewrite_chain(
    text: Seq<char>,
    mid: serde_json::Value,
    post: serde_json::Value,
    server_port: u32,
    swarm_port: u32,
) -> bool {
    &&& config_doc_of(text) is Some
    &&& listen_updated(config_doc_of(text)->Some_0, mid, "swarm"@, swarm_port as u16)
    &&& listen_updated(mid, post, "server"@, server_port as u16)
}

/// A successful whole update: a rewrite chain from the input text ends in
/// a document whose re-encoding is the returned text.
pub open spec fn config_rewritten(
    text: Seq<char>,
    out: Seq<char>,
    server_port: u32,
    swarm_port: u32,
) -> bool {
    exists|mid: serde_json::Value, post: serde_json::Value|
        #[trigger] config_rewrite_chain(text, mid, post, server_port, swarm_port)
            && config_text_of(post) == Some(out)
}

/// The rewritten document cannot be re-encoded as configuration text.
pub open spec fn config_unencodable(text: Seq<char>, server_port: u32, swarm_port: u32) -> bool {
    exists|mid: serde_json::Value, post: serde_json::Value|
        #[trigger] config_rewrite_chain(text, mid, post, server_port, swarm_port)
            && config_text_of(post) is None
}

/// The whole configuration update of a rename/reconfigure request, from
/// configuration text to configuration text.  A `new_name_exists` probe
/// reports whether a node directory under the requested new name is already
/// present on disk; a conflicting rename is refused before anything is
/// parsed, so nothing of the node is touched.  Then the text is parsed
/// (`ConfigIo` where it is not valid configuration text), both listen
/// sections are rewritten under `update_doc_verdict`, and the rewritten
/// document is re-encoded (`ConfigIo` where that fails): on success the
/// returned text encodes the document with both listen sections rewritten
/// and everything else preserved.  The caller writes the returned text
/// back, renames the directory where the name changed, and updates the
/// run-on-startup flag.
pub fn update_node_config(
    config_text: &str,
    original_node_name: &String,
    node_name: &String,
    new_name_exists: bool,
    server_port: u32,
    swarm_port: u32,
) -> (r: Result<String, NodeError>)
    ensures
        (original_node_name@ != node_name@ && new_name_exists) <==> r == Err::<String, NodeError>(
            NodeError::NameConflict,
        ),
        !(original_node_name@ != node_name@ && new_name_exists) && config_doc_of(config_text@)
            is None ==> r == Err::<String, NodeError>(NodeError::ConfigIo),
        !(original_node_name@ != node_name@ && new_name_exists) ==> (config_doc_of(config_text@)
            matches Some(pre) ==> (update_doc_verdict(pre, server_port, swarm_port) matches Some(e)
            ==> r == Err::<String, NodeError>(e))),
        !(original_node_name@ != node_name@ && new_name_exists) ==> (config_doc_of(config_text@)
            matches Some(pre) ==> (update_doc_verdict(pre, server_port, swarm_port) is None
            ==> (match r {
            Ok(out) => config_rewritten(config_text@, out@, server_port, swarm_port),
            Err(e) => e is ConfigIo && config_unencodable(config_text@, server_port, swarm_port),
        }))),
{
    if !(*original_node_name == *node_name) && new_name_exists {
        return Err(NodeError::NameConflict);
    }
    let mut doc = match parse_config_text(config_text) {
        None => {
            return Err(NodeError::ConfigIo);
        },
        Some(d) => d,
    };
    let ghost pre = doc;
    match update_node_doc(&mut doc, server_port, swarm_port) {
        Ok(()) => {},
        Err(e) => {
            proof {
                assert(e is InvalidPort || e is AddressMalformed);
            }
            return Err(e);
        },
    }
    let ghost post = doc;
    let ghost mid = choose|mid: serde_json::Value|
        #[trigger] listen_updated(pre, mid, "swarm"@, swarm_port as u16) && listen_updated(
            mid,
            post,
            "server"@,
            server_port as u16,
        );
    proof {
        assert(config_rewrite_chain(config_text@, mid, post, server_port, swarm_port));
    }
    match config_to_text(&doc) {
        None => {
            proof {
                assert(config_unencodable(config_text@, server_port, swarm_port));
            }
            Err(NodeError::ConfigIo)
        },
        Some(t) => {
            proof {
                assert(config_rewritten(config_text@, t@, server_port, swarm_port));
            }
            Ok(t)
        },
    }
}

} // verus!
