//! MCP resource addressing and completion: which notebook a `notebooklm://`
//! URI designates, percent-decoding of notebook ids, and id completion.
//! Rendering the resource contents as JSON is the caller's part.

use vstd::prelude::*;
use vstd::utf8::{valid_utf8, decode_utf8};
use vstd::string::StringSliceAdditionalSpecFns;
use crate::text::{chars_of, string_from_chars, push_char, owned, concat2, lowercase, contains, str_eq, starts_with, has_prefix, has_sub, spec_to_lowercase, join, joined_with, push_str};
use crate::library::types::{NotebookEntry, NotebookView, entries, strs};
use crate::library::notebook_library::{NotebookLibrary, lookup, has_id};

verus! {

// ---------------------------------------------------------------------------
// Percent-decoding
// ---------------------------------------------------------------------------

pub open spec fn is_hex(c: char) -> bool {
    ('0' <= c <= '9') || ('a' <= c <= 'f') || ('A' <= c <= 'F')
}

pub open spec fn hex_val(c: char) -> nat {
    if '0' <= c <= '9' {
        (c as nat - '0' as nat) as nat
    } else if 'a' <= c <= 'f' {
        (c as nat - 'a' as nat + 10) as nat
    } else {
        (c as nat - 'A' as nat + 10) as nat
    }
}

pub open spec fn hex_digits_value(d: Seq<char>) -> nat
    decreases d.len(),
{
    if d.len() == 0 {
        0
    } else {
        hex_digits_value(d.drop_last()) * 16 + hex_val(d.last())
    }
}

/// What `u8::from_str_radix(s, 16)` gives: the value of the hex digits after an
/// optional `+`, when there is at least one digit, all are hex and the value fits.
pub open spec fn radix16_u8(s: Seq<char>) -> Option<u8> {
    let d = if s.len() > 0 && s[0] == '+' { s.drop_first() } else { s };
    if d.len() > 0 && (forall|i: int| 0 <= i < d.len() ==> is_hex(#[trigger] d[i])) && hex_digits_value(d) <= 255 {
        Some(hex_digits_value(d) as u8)
    } else {
        None
    }
}

/// The text of the error that `u8::from_str_radix` reports for a string.
pub uninterp spec fn spec_parse_int_error_text(s: Seq<char>) -> Seq<char>;

/// Calls `u8::from_str_radix(s, 16)`; the error is rendered with `to_string`.
#[verifier::external_body]
fn parse_hex_u8(s: &str) -> (r: Result<u8, String>)
    ensures
        match r {
            Ok(v) => radix16_u8(s@) == Some(v),
            Err(m) => radix16_u8(s@).is_none() && m@ == spec_parse_int_error_text(s@),
        },
{
    u8::from_str_radix(s, 16).map_err(|e| e.to_string())
}

/// The text of the error that `std::str::from_utf8` reports for invalid bytes.
pub uninterp spec fn spec_utf8_error_text(b: Seq<u8>) -> Seq<char>;

/// Calls `std::str::from_utf8`; the string is copied and the error rendered with `to_string`.
#[verifier::external_body]
fn str_from_utf8(b: &[u8]) -> (r: Result<String, String>)
    ensures
        match r {
            Ok(s) => valid_utf8(b@) && s@ == decode_utf8(b@),
            Err(m) => !valid_utf8(b@) && m@ == spec_utf8_error_text(b@),
        },
{
    match std::str::from_utf8(b) {
        Ok(s) => Ok(s.to_string()),
        Err(e) => Err(e.to_string()),
    }
}

pub open spec fn with_prefix(p: Seq<char>, r: Result<Seq<char>, Seq<char>>) -> Result<Seq<char>, Seq<char>> {
    match r {
        Ok(s) => Ok(p + s),
        Err(e) => Err(e),
    }
}

/// Percent-decoding of the bytes of a string, left to right: `%XY` becomes the
/// character with code `0xXY`, every other byte the character with its code.
/// The first malformed escape gives its error text.
pub open spec fn percent_decode(bs: Seq<u8>) -> Result<Seq<char>, Seq<char>>
    decreases bs.len(),
{
    if bs.len() == 0 {
        Ok(Seq::empty())
    } else if bs[0] == 37 {
        if bs.len() < 3 {
            Err("Truncated percent-encoding"@)
        } else {
            let pair = seq![bs[1], bs[2]];
            if !valid_utf8(pair) {
                Err(spec_utf8_error_text(pair))
            } else {
                match radix16_u8(decode_utf8(pair)) {
                    None => Err(spec_parse_int_error_text(decode_utf8(pair))),
                    Some(v) => with_prefix(seq![v as char], percent_decode(bs.subrange(3, bs.len() as int))),
                }
            }
        }
    } else {
        with_prefix(seq![bs[0] as char], percent_decode(bs.drop_first()))
    }
}

proof fn lemma_with_prefix_assoc(a: Seq<char>, b: Seq<char>, r: Result<Seq<char>, Seq<char>>)
    ensures
        with_prefix(a, with_prefix(b, r)) == with_prefix(a + b, r),
{
    match r {
        Ok(s) => {
            assert(a + (b + s) =~= (a + b) + s);
        },
        Err(_) => {},
    }
}

/// Simple percent-decoding of a URI component.
pub fn urlencoding_decode(s: &str) -> (r: Result<String, String>)
    ensures
        match r {
            Ok(d) => percent_decode(s.spec_bytes()) == Ok::<Seq<char>, Seq<char>>(d@),
            Err(e) => percent_decode(s.spec_bytes()) == Err::<Seq<char>, Seq<char>>(e@),
        },
{
    proof {
        reveal_strlit("Truncated percent-encoding");
    }
    let bytes = s.as_bytes();
    let ghost bs = bytes@;
    let mut out = String::new();
    let mut i: usize = 0;
    assert(bs.subrange(0, bs.len() as int) =~= bs);
    assert(out@ + Seq::<char>::empty() =~= out@);
    while i < bytes.len()
        invariant
            bs == bytes@,
            bs == s.spec_bytes(),
            i <= bytes.len(),
            percent_decode(bs) == with_prefix(out@, percent_decode(bs.subrange(i as int, bs.len() as int))),
        decreases bytes.len() - i,
    {
        let ghost rest = bs.subrange(i as int, bs.len() as int);
        let b = bytes[i];
        assert(rest[0] == b);
        if b == 37u8 {
            if bytes.len() - i < 3 {
                assert(rest.len() < 3);
                assert(percent_decode(rest) == Err::<Seq<char>, Seq<char>>("Truncated percent-encoding"@));
                return Err(owned("Truncated percent-encoding"));
            }
            let hi = bytes[i + 1];
            let lo = bytes[i + 2];
            let ghost pair = seq![hi, lo];
            assert(rest[1] == hi && rest[2] == lo);
            let mut hexv: Vec<u8> = Vec::new();
            hexv.push(hi);
            hexv.push(lo);
            assert(hexv@ =~= pair);
            let hex_str = match str_from_utf8(hexv.as_slice()) {
                Ok(h) => h,
                Err(e) => return Err(e),
            };
            let byte = match parse_hex_u8(hex_str.as_str()) {
                Ok(v) => v,
                Err(e) => return Err(e),
            };
            proof {
                assert(rest.subrange(3, rest.len() as int) =~= bs.subrange(i + 3, bs.len() as int));
                lemma_with_prefix_assoc(out@, seq![byte as char], percent_decode(bs.subrange(i + 3, bs.len() as int)));
            }
            assert(out@.push(byte as char) =~= out@ + seq![byte as char]);
            push_char(&mut out, byte as char);
            i = i + 3;
        } else {
            proof {
                assert(rest.drop_first() =~= bs.subrange(i + 1, bs.len() as int));
                lemma_with_prefix_assoc(out@, seq![b as char], percent_decode(bs.subrange(i + 1, bs.len() as int)));
            }
            assert(out@.push(b as char) =~= out@ + seq![b as char]);
            push_char(&mut out, b as char);
            i = i + 1;
        }
    }
    assert(bs.subrange(i as int, bs.len() as int) =~= Seq::<u8>::empty());
    assert(out@ + Seq::<char>::empty() =~= out@);
    Ok(out)
}

// ---------------------------------------------------------------------------
// Notebook ids
// ---------------------------------------------------------------------------

/// Whether a character is alphabetic or numeric, as `char::is_alphanumeric` decides.
pub uninterp spec fn spec_is_alphanumeric(c: char) -> bool;

/// Calls `char::is_alphanumeric`.
#[verifier::external_body]
fn is_alphanumeric(c: char) -> (r: bool)
    ensures
        r == spec_is_alphanumeric(c),
{
    c.is_alphanumeric()
}

/// A notebook id of a resource URI is made of letters, digits and hyphens and
/// is at most 63 bytes long.
pub open spec fn valid_notebook_id(id: Seq<char>) -> bool {
    &&& forall|i: int| 0 <= i < id.len() ==> spec_is_alphanumeric(#[trigger] id[i]) || id[i] == '-'
    &&& vstd::utf8::encode_utf8(id).len() <= 63
}

pub fn is_valid_notebook_id(id: &str) -> (r: bool)
    ensures
        r == valid_notebook_id(id@),
{
    let cs = chars_of(id);
    let mut i: usize = 0;
    while i < cs.len()
        invariant
            cs@ == id@,
            i <= cs.len(),
            forall|k: int| 0 <= k < i ==> spec_is_alphanumeric(#[trigger] cs@[k]) || cs@[k] == '-',
        decreases cs.len() - i,
    {
        if !(is_alphanumeric(cs[i]) || cs[i] == '-') {
            return false;
        }
        i = i + 1;
    }
    id.as_bytes().len() <= 63
}

// ---------------------------------------------------------------------------
// resources/read
// ---------------------------------------------------------------------------

pub const LIBRARY_URI: &'static str = "notebooklm://library";
pub const LIBRARY_PREFIX: &'static str = "notebooklm://library/";
pub const METADATA_URI: &'static str = "notebooklm://metadata";
pub const NOTEBOOK_TEMPLATE_URI: &'static str = "notebooklm://library/{id}";

/// The resource that a read request designates.
#[derive(Debug)]
pub enum ResourceRead {
    /// The whole library (`notebooklm://library`).
    Library { uri: String },
    /// One notebook (`notebooklm://library/{id}`).
    Notebook { uri: String, notebook: NotebookEntry },
    /// The active notebook (`notebooklm://metadata`, legacy).
    Metadata { uri: String, notebook: NotebookEntry },
}

/// Model of what a read of `uri` gives: the resource kind with the notebook it
/// shows, or the error text.
pub enum ReadOutcome {
    Library,
    Notebook(NotebookView),
    Metadata(NotebookView),
    Failure(Seq<char>),
}

/// The read of a `notebooklm://library/<encoded>` URI.
pub open spec fn read_notebook_outcome(nbs: Seq<NotebookView>, encoded: Seq<char>, encoded_bytes: Seq<u8>) -> ReadOutcome {
    if encoded.len() == 0 {
        ReadOutcome::Failure("Notebook resource requires an ID (e.g. notebooklm://library/{id})"@)
    } else {
        match percent_decode(encoded_bytes) {
            Err(e) => ReadOutcome::Failure(e),
            Ok(id) => if !valid_notebook_id(id) {
                ReadOutcome::Failure("Invalid notebook identifier: "@ + encoded + ". IDs may only contain letters, numbers, and hyphens."@)
            } else {
                match lookup(nbs, id) {
                    Some(nb) => ReadOutcome::Notebook(nb),
                    None => ReadOutcome::Failure("Notebook not found: "@ + id),
                }
            },
        }
    }
}

/// The read of a resource URI against a library.
pub open spec fn read_outcome(nbs: Seq<NotebookView>, active: Option<Seq<char>>, uri: Option<Seq<char>>) -> ReadOutcome {
    match uri {
        None => ReadOutcome::Failure("Missing 'uri' in resource read request"@),
        Some(u) => if u == LIBRARY_URI@ {
            ReadOutcome::Library
        } else if has_prefix(u, LIBRARY_PREFIX@) {
            let enc = u.subrange(LIBRARY_PREFIX@.len() as int, u.len() as int);
            read_notebook_outcome(nbs, enc, vstd::utf8::encode_utf8(enc))
        } else if u == METADATA_URI@ {
            match active {
                Some(a) => match lookup(nbs, a) {
                    Some(nb) => ReadOutcome::Metadata(nb),
                    None => ReadOutcome::Failure("No active notebook. Use notebooklm://library to see all notebooks."@),
                },
                None => ReadOutcome::Failure("No active notebook. Use notebooklm://library to see all notebooks."@),
            }
        } else {
            ReadOutcome::Failure("Unknown resource: "@ + u)
        },
    }
}

/// The outcome of a read as its model.
pub open spec fn read_result_view(r: Result<ResourceRead, String>) -> ReadOutcome {
    match r {
        Ok(ResourceRead::Library { .. }) => ReadOutcome::Library,
        Ok(ResourceRead::Notebook { notebook, .. }) => ReadOutcome::Notebook(notebook@),
        Ok(ResourceRead::Metadata { notebook, .. }) => ReadOutcome::Metadata(notebook@),
        Err(e) => ReadOutcome::Failure(e@),
    }
}

/// The part of `s` that follows its prefix `prefix`.
fn rest_after_prefix(s: &str, prefix: &str) -> (r: String)
    requires
        has_prefix(s@, prefix@),
    ensures
        r@ == s@.subrange(prefix@.len() as int, s@.len() as int),
{
    let c = chars_of(s);
    let start = chars_of(prefix).len();
    let mut r = String::new();
    let mut i: usize = start;
    while i < c.len()
        invariant
            c@ == s@,
            start == prefix@.len(),
            start <= i <= c.len(),
            r@ == c@.subrange(start as int, i as int),
        decreases c.len() - i,
    {
        push_char(&mut r, c[i]);
        assert(c@.subrange(start as int, i + 1) == c@.subrange(start as int, i as int).push(c@[i as int]));
        i = i + 1;
    }
    r
}

/// Description of the library resource.
pub const LIBRARY_RESOURCE_DESCRIPTION: &'static str = "Complete notebook library with all available knowledge sources. Read this to discover what notebooks are available. ⚠️ If you think a notebook might help with the user's task, ASK THE USER FOR PERMISSION before consulting it: 'Should I consult the [notebook] now?'";

/// Description of the legacy active-notebook resource.
pub const METADATA_RESOURCE_DESCRIPTION: &'static str = "Information about the currently active notebook. DEPRECATED: Use notebooklm://library instead for multi-notebook support. ⚠️ Always ask user permission before using notebooks for tasks they didn't explicitly mention.";

/// The MIME type of every resource: each is a JSON document.
pub const RESOURCE_MIME_TYPE: &'static str = "application/json";

/// One entry of the resource list.
pub struct ResourceItem {
    pub uri: String,
    pub name: String,
    pub description: String,
    pub mime_type: String,
}

/// A resource entry as its URI, name, description and MIME type.
pub open spec fn item_view(i: ResourceItem) -> (Seq<char>, Seq<char>, Seq<char>, Seq<char>) {
    (i.uri@, i.name@, i.description@, i.mime_type@)
}

/// The listed entry of a notebook.
pub open spec fn notebook_item(nb: NotebookView) -> (Seq<char>, Seq<char>, Seq<char>, Seq<char>) {
    (
        LIBRARY_PREFIX@ + nb.id,
        nb.name,
        nb.description + " | Topics: "@ + joined_with(nb.topics, ", "@)
            + " | 💡 Use ask_question to query this notebook"@,
        RESOURCE_MIME_TYPE@,
    )
}

/// The active notebook id names a notebook of the library.
pub open spec fn has_active(nbs: Seq<NotebookView>, active: Option<Seq<char>>) -> bool {
    match active {
        Some(id) => lookup(nbs, id) is Some,
        None => false,
    }
}

/// The resource list: the library, then each notebook in library order, then
/// the legacy metadata resource when a notebook is active.
pub open spec fn listed_resources(nbs: Seq<NotebookView>, active: Option<Seq<char>>) -> Seq<(Seq<char>, Seq<char>, Seq<char>, Seq<char>)> {
    seq![(LIBRARY_URI@, "Notebook Library"@, LIBRARY_RESOURCE_DESCRIPTION@, RESOURCE_MIME_TYPE@)]
        + nbs.map_values(|nb: NotebookView| notebook_item(nb))
        + if has_active(nbs, active) {
            seq![(METADATA_URI@, "Active Notebook Metadata (Legacy)"@, METADATA_RESOURCE_DESCRIPTION@, RESOURCE_MIME_TYPE@)]
        } else {
            Seq::empty()
        }
}

/// Resource and completion handlers over the notebook library.
pub struct ResourceHandlers {}

impl ResourceHandlers {
    pub fn new() -> (r: ResourceHandlers) {
        ResourceHandlers {}
    }

    /// The resources the server lists for `library`.
    pub fn handle_list_resources(&self, library: &NotebookLibrary) -> (r: Vec<ResourceItem>)
        ensures
            r@.map_values(|i: ResourceItem| item_view(i)) == listed_resources(library@.notebooks, library@.active_notebook_id),
    {
        let nbs = library.list_notebooks();
        let ghost nv = library@.notebooks;
        let mut out: Vec<ResourceItem> = Vec::new();
        out.push(ResourceItem {
            uri: owned(LIBRARY_URI),
            name: owned("Notebook Library"),
            description: owned(LIBRARY_RESOURCE_DESCRIPTION),
            mime_type: owned(RESOURCE_MIME_TYPE),
        });
        let ghost head = seq![(LIBRARY_URI@, "Notebook Library"@, LIBRARY_RESOURCE_DESCRIPTION@, RESOURCE_MIME_TYPE@)];
        let mut i: usize = 0;
        while i < nbs.len()
            invariant
                entries(nbs@) == nv,
                i <= nbs.len(),
                out@.map_values(|x: ResourceItem| item_view(x))
                    == head + nv.take(i as int).map_values(|nb: NotebookView| notebook_item(nb)),
            decreases nbs.len() - i,
        {
            let nb = &nbs[i];
            assert(nb@ == nv[i as int]);
            let item = ResourceItem {
                uri: notebook_resource_uri(nb.id.as_str()),
                name: owned(nb.name.as_str()),
                description: notebook_resource_description(nb),
                mime_type: owned(RESOURCE_MIME_TYPE),
            };
            let ghost before = out@;
            out.push(item);
            assert(nv.take(i + 1) =~= nv.take(i as int).push(nv[i as int]));
            assert(out@.map_values(|x: ResourceItem| item_view(x))
                =~= before.map_values(|x: ResourceItem| item_view(x)).push(notebook_item(nv[i as int])));
            assert(nv.take(i + 1).map_values(|nb: NotebookView| notebook_item(nb))
                =~= nv.take(i as int).map_values(|nb: NotebookView| notebook_item(nb)).push(notebook_item(nv[i as int])));
            i = i + 1;
        }
        assert(nv.take(nbs.len() as int) =~= nv);
        let ghost mid = out@;
        if library.get_active_notebook().is_some() {
            out.push(ResourceItem {
                uri: owned(METADATA_URI),
                name: owned("Active Notebook Metadata (Legacy)"),
                description: owned(METADATA_RESOURCE_DESCRIPTION),
                mime_type: owned(RESOURCE_MIME_TYPE),
            });
            assert(out@.map_values(|x: ResourceItem| item_view(x))
                =~= mid.map_values(|x: ResourceItem| item_view(x)).push((METADATA_URI@, "Active Notebook Metadata (Legacy)"@, METADATA_RESOURCE_DESCRIPTION@, RESOURCE_MIME_TYPE@)));
        }
        assert(out@.map_values(|x: ResourceItem| item_view(x))
            =~= listed_resources(library@.notebooks, library@.active_notebook_id));
        out
    }

    /// Resolve a `resources/read` request for `uri` (absent when the request has none).
    pub fn handle_read_resource(&self, library: &NotebookLibrary, uri: Option<&str>) -> (r: Result<ResourceRead, String>)
        ensures
            read_result_view(r) == read_outcome(library@.notebooks, library@.active_notebook_id, match uri { Some(u) => Some(u@), None => None }),
            r matches Ok(ResourceRead::Library { uri: u }) ==> u@ == uri.unwrap()@,
            r matches Ok(ResourceRead::Notebook { uri: u, .. }) ==> u@ == uri.unwrap()@,
            r matches Ok(ResourceRead::Metadata { uri: u, .. }) ==> u@ == uri.unwrap()@,
    {
        let uri = match uri {
            Some(u) => u,
            None => return Err(owned("Missing 'uri' in resource read request")),
        };
        if str_eq(uri, LIBRARY_URI) {
            return Ok(ResourceRead::Library { uri: owned(uri) });
        }
        if starts_with(uri, LIBRARY_PREFIX) {
            let encoded = rest_after_prefix(uri, LIBRARY_PREFIX);
            return match self.read_notebook_resource(library, encoded.as_str()) {
                Ok(nb) => Ok(ResourceRead::Notebook { uri: owned(uri), notebook: nb }),
                Err(e) => Err(e),
            };
        }
        if str_eq(uri, METADATA_URI) {
            return match self.read_metadata_resource(library) {
                Ok(nb) => Ok(ResourceRead::Metadata { uri: owned(uri), notebook: nb }),
                Err(e) => Err(e),
            };
        }
        Err(concat2("Unknown resource: ", uri))
    }

    fn read_notebook_resource(&self, library: &NotebookLibrary, encoded_id: &str) -> (r: Result<NotebookEntry, String>)
        ensures
            match r {
                Ok(nb) => read_notebook_outcome(library@.notebooks, encoded_id@, encoded_id.spec_bytes()) == ReadOutcome::Notebook(nb@),
                Err(e) => read_notebook_outcome(library@.notebooks, encoded_id@, encoded_id.spec_bytes()) == ReadOutcome::Failure(e@),
            },
    {
        if encoded_id.is_empty() {
            return Err(owned("Notebook resource requires an ID (e.g. notebooklm://library/{id})"));
        }
        let id = match urlencoding_decode(encoded_id) {
            Ok(d) => d,
            Err(e) => return Err(e),
        };
        if !is_valid_notebook_id(id.as_str()) {
            let a = concat2("Invalid notebook identifier: ", encoded_id);
            return Err(concat2(a.as_str(), ". IDs may only contain letters, numbers, and hyphens."));
        }
        match library.get_notebook(id.as_str()) {
            Some(nb) => Ok(nb),
            None => Err(concat2("Notebook not found: ", id.as_str())),
        }
    }

    fn read_metadata_resource(&self, library: &NotebookLibrary) -> (r: Result<NotebookEntry, String>)
        ensures
            match r {
                Ok(nb) => library@.active_notebook_id.is_some() && lookup(library@.notebooks, library@.active_notebook_id.unwrap()) == Some(nb@),
                Err(e) => (library@.active_notebook_id.is_none() || lookup(library@.notebooks, library@.active_notebook_id.unwrap()).is_none())
                    && e@ == "No active notebook. Use notebooklm://library to see all notebooks."@,
            },
    {
        match library.get_active_notebook() {
            Some(nb) => Ok(nb),
            None => Err(owned("No active notebook. Use notebooklm://library to see all notebooks.")),
        }
    }

    /// Resolve a `completion/complete` request: ids of the notebook template are
    /// completed, anything else gets no values.
    pub fn handle_complete(&self, library: &NotebookLibrary, ref_type: &str, ref_uri: &str, arg_name: &str, arg_value: &str) -> (r: Vec<String>)
        ensures
            (ref_type@ == "ref/resource"@ && ref_uri@ == NOTEBOOK_TEMPLATE_URI@ && arg_name@ == "id"@) ==>
                strs(r@) == completions(library@.notebooks, spec_to_lowercase(arg_value@), 50),
            !(ref_type@ == "ref/resource"@ && ref_uri@ == NOTEBOOK_TEMPLATE_URI@ && arg_name@ == "id"@) ==> r@.len() == 0,
    {
        if str_eq(ref_type, "ref/resource") && str_eq(ref_uri, NOTEBOOK_TEMPLATE_URI) && str_eq(arg_name, "id") {
            self.complete_notebook_ids(library, arg_value)
        } else {
            Vec::new()
        }
    }

    /// Ids of the notebooks whose lowercased id contains the lowercased prefix,
    /// in library order, at most 50.
    pub fn complete_notebook_ids(&self, library: &NotebookLibrary, prefix: &str) -> (r: Vec<String>)
        ensures
            strs(r@) == completions(library@.notebooks, spec_to_lowercase(prefix@), 50),
    {
        let q = lowercase(prefix);
        let nbs = library.list_notebooks();
        let ghost es = entries(nbs@);
        let mut out: Vec<String> = Vec::new();
        let mut i: usize = 0;
        while i < nbs.len() && out.len() < 50
            invariant
                es == entries(nbs@),
                es == library@.notebooks,
                i <= nbs.len(),
                out.len() <= 50,
                strs(out@) == completions(es.subrange(0, i as int), q@, 50),
            decreases nbs.len() - i,
        {
            let ghost nxt = es.subrange(0, i + 1);
            assert(nxt.drop_last() =~= es.subrange(0, i as int));
            assert(nxt.last() == nbs@[i as int]@);
            let l = lowercase(nbs[i].id.as_str());
            if contains(l.as_str(), q.as_str()) {
                let ghost before = out@;
                out.push(nbs[i].id.clone());
                assert(strs(out@) =~= strs(before).push(nbs@[i as int].id@));
            }
            i = i + 1;
        }
        proof {
            if i < nbs.len() {
                lemma_completions_saturate(es, i as int, q@, 50);
            } else {
                assert(es.subrange(0, i as int) =~= es);
            }
        }
        out
    }
}

/// Ids of the notebooks whose lowercased id contains `q`, at most `limit`, in order.
pub open spec fn completions(nbs: Seq<NotebookView>, q: Seq<char>, limit: nat) -> Seq<Seq<char>>
    decreases nbs.len(),
{
    if nbs.len() == 0 {
        Seq::empty()
    } else {
        let rest = completions(nbs.drop_last(), q, limit);
        if rest.len() < limit && has_sub(spec_to_lowercase(nbs.last().id), q) {
            rest.push(nbs.last().id)
        } else {
            rest
        }
    }
}

proof fn lemma_completions_len(nbs: Seq<NotebookView>, q: Seq<char>, limit: nat)
    ensures
        completions(nbs, q, limit).len() <= limit,
    decreases nbs.len(),
{
    if nbs.len() > 0 {
        lemma_completions_len(nbs.drop_last(), q, limit);
    }
}

/// Once `limit` completions are found, later notebooks add none.
proof fn lemma_completions_saturate(nbs: Seq<NotebookView>, k: int, q: Seq<char>, limit: nat)
    requires
        0 <= k <= nbs.len(),
        completions(nbs.subrange(0, k), q, limit).len() >= limit,
    ensures
        completions(nbs, q, limit) == completions(nbs.subrange(0, k), q, limit),
    decreases nbs.len() - k,
{
    if k < nbs.len() {
        let nxt = nbs.subrange(0, k + 1);
        assert(nxt.drop_last() =~= nbs.subrange(0, k));
        lemma_completions_len(nbs.subrange(0, k), q, limit);
        lemma_completions_saturate(nbs, k + 1, q, limit);
    } else {
        assert(nbs.subrange(0, k) =~= nbs);
    }
}

/// Percent-decoding leaves a string without `%` as it is when it is ASCII: each
/// byte becomes the character it encodes.
pub proof fn law_decode_without_escapes(bs: Seq<u8>)
    requires
        forall|i: int| 0 <= i < bs.len() ==> #[trigger] bs[i] != 37,
    ensures
        percent_decode(bs) == Ok::<Seq<char>, Seq<char>>(bs.map_values(|b: u8| b as char)),
    decreases bs.len(),
{
    if bs.len() > 0 {
        law_decode_without_escapes(bs.drop_first());
        assert(seq![bs[0] as char] + bs.drop_first().map_values(|b: u8| b as char) =~= bs.map_values(|b: u8| b as char));
    } else {
        assert(bs.map_values(|b: u8| b as char) =~= Seq::<char>::empty());
    }
}

/// Decoding an escape of two hex digits gives the character with that code.
pub proof fn law_decode_escape(hi: u8, lo: u8, rest: Seq<u8>)
    requires
        hi < 128,
        lo < 128,
        is_hex(hi as char),
        is_hex(lo as char),
    ensures
        percent_decode(seq![37u8, hi, lo] + rest) == with_prefix(
            seq![(hex_val(hi as char) * 16 + hex_val(lo as char)) as u8 as char],
            percent_decode(rest),
        ),
{
    let bs = seq![37u8, hi, lo] + rest;
    let pair = seq![hi, lo];
    assert(bs[0] == 37u8 && bs[1] == hi && bs[2] == lo);
    assert(bs.subrange(3, bs.len() as int) =~= rest);
    lemma_ascii_pair(hi, lo);
    let d = decode_utf8(pair);
    assert(d =~= seq![hi as char, lo as char]);
    assert(d.drop_last() =~= seq![hi as char]);
    assert(seq![hi as char].drop_last() =~= Seq::<char>::empty());
    assert(hex_val(hi as char) <= 15 && hex_val(lo as char) <= 15);
    assert(seq![hi as char].drop_last() =~= Seq::<char>::empty());
    assert(hex_digits_value(Seq::<char>::empty()) == 0);
    assert(seq![hi as char].last() == hi as char);
    assert(hex_digits_value(seq![hi as char]) == hex_digits_value(Seq::<char>::empty()) * 16 + hex_val(hi as char));
    assert(hex_digits_value(d) == hex_digits_value(seq![hi as char]) * 16 + hex_val(lo as char));
    assert(hex_digits_value(d) <= 255);
    assert(forall|i: int| 0 <= i < d.len() ==> is_hex(#[trigger] d[i]));
}

proof fn lemma_ascii_pair(hi: u8, lo: u8)
    requires
        hi < 128,
        lo < 128,
    ensures
        valid_utf8(seq![hi, lo]),
        decode_utf8(seq![hi, lo]) == seq![hi as char, lo as char],
{
    broadcast use vstd::utf8::char_u32_cast, vstd::utf8::encode_utf8_valid_utf8, vstd::utf8::encode_utf8_decode_utf8;
    let chars = seq![hi as char, lo as char];
    assert((hi as char) as u32 == hi as u32);
    assert((lo as char) as u32 == lo as u32);
    assert(chars.drop_first() =~= seq![lo as char]);
    assert(seq![lo as char].drop_first() =~= Seq::<char>::empty());
    assert(((hi as u32) & 0x7F) as u8 == hi) by (bit_vector)
        requires
            hi < 128;
    assert(((lo as u32) & 0x7F) as u8 == lo) by (bit_vector)
        requires
            lo < 128;
    assert(vstd::utf8::encode_scalar((lo as char) as u32) =~= seq![lo]);
    assert(vstd::utf8::encode_scalar((hi as char) as u32) =~= seq![hi]);
    assert(vstd::utf8::encode_utf8(Seq::<char>::empty()) =~= Seq::<u8>::empty());
    assert(vstd::utf8::encode_utf8(seq![lo as char]) =~= seq![lo]);
    assert(vstd::utf8::encode_utf8(chars) =~= seq![hi, lo]);
    assert(valid_utf8(vstd::utf8::encode_utf8(chars)));
    assert(decode_utf8(vstd::utf8::encode_utf8(chars)) == chars);
}


/// The description of a notebook in the resource list:
/// `<description> | Topics: <t1, t2> | 💡 Use ask_question to query this notebook`.
pub fn notebook_resource_description(nb: &NotebookEntry) -> (r: String)
    ensures
        r@ == nb@.description + " | Topics: "@ + joined_with(nb@.topics, ", "@)
            + " | 💡 Use ask_question to query this notebook"@,
{
    let topics = join(&nb.topics, ", ");
    let mut s = concat2(nb.description.as_str(), " | Topics: ");
    push_str(&mut s, topics.as_str());
    push_str(&mut s, " | 💡 Use ask_question to query this notebook");
    s
}

/// The URI of a notebook resource: `notebooklm://library/<id>`.
pub fn notebook_resource_uri(id: &str) -> (r: String)
    ensures
        r@ == LIBRARY_PREFIX@ + id@,
{
    concat2(LIBRARY_PREFIX, id)
}


/// The UTF-8 encoding of ASCII characters is their codes, one byte each.
proof fn lemma_encode_ascii(id: Seq<char>)
    requires
        forall|i: int| 0 <= i < id.len() ==> ((#[trigger] id[i]) as u32) < 128,
    ensures
        vstd::utf8::encode_utf8(id) == id.map_values(|c: char| c as u32 as u8),
    decreases id.len(),
{
    if id.len() > 0 {
        let c = id[0] as u32;
        assert((c & 0x7F) as u8 == c as u8) by (bit_vector)
            requires
                c < 128;
        assert(vstd::utf8::encode_scalar(c) =~= seq![c as u8]);
        lemma_encode_ascii(id.drop_first());
        assert(seq![c as u8] + id.drop_first().map_values(|c: char| c as u32 as u8) =~= id.map_values(|c: char| c as u32 as u8));
    } else {
        assert(id.map_values(|c: char| c as u32 as u8) =~= Seq::<u8>::empty());
    }
}

/// A notebook whose id is a valid resource id, written in ASCII without `%`, is
/// read back through its resource URI `notebooklm://library/<id>`.
pub proof fn law_notebook_uri_reads_back(nbs: Seq<NotebookView>, active: Option<Seq<char>>, id: Seq<char>)
    requires
        id.len() > 0,
        valid_notebook_id(id),
        forall|i: int| 0 <= i < id.len() ==> ((#[trigger] id[i]) as u32) < 128 && id[i] != '%',
        has_id(nbs, id),
    ensures
        read_outcome(nbs, active, Some(LIBRARY_PREFIX@ + id)) == ReadOutcome::Notebook(lookup(nbs, id).unwrap()),
{
    reveal_strlit("notebooklm://library");
    reveal_strlit("notebooklm://library/");
    reveal_strlit("notebooklm://metadata");
    let u = LIBRARY_PREFIX@ + id;
    assert(u.len() != LIBRARY_URI@.len());
    assert(u.subrange(0, LIBRARY_PREFIX@.len() as int) =~= LIBRARY_PREFIX@);
    assert(has_prefix(u, LIBRARY_PREFIX@));
    let enc = u.subrange(LIBRARY_PREFIX@.len() as int, u.len() as int);
    assert(enc =~= id);
    lemma_encode_ascii(id);
    let bs = id.map_values(|c: char| c as u32 as u8);
    assert forall|i: int| 0 <= i < bs.len() implies #[trigger] bs[i] != 37 by {
        let v = id[i] as u32;
        assert((v as u8) as u32 == v) by (bit_vector)
            requires
                v < 128;
        assert(bs[i] == v as u8);
        assert(('%' as u32) == 37);
        if v == 37 {
            vstd::utf8::char_u32_cast(id[i], v);
            vstd::utf8::char_u32_cast('%', v);
            assert((v as char) == id[i]);
        }
    }
    law_decode_without_escapes(bs);
    let back = bs.map_values(|b: u8| b as char);
    assert forall|i: int| 0 <= i < id.len() implies #[trigger] back[i] == id[i] by {
        let v = id[i] as u32;
        assert((v as u8) as u32 == v) by (bit_vector)
            requires
                v < 128;
        assert(bs[i] == v as u8);
        let w = (v as u8) as char;
        assert(back[i] == w);
        assert(w as u32 == v);
        vstd::utf8::char_u32_cast(w, v);
        vstd::utf8::char_u32_cast(id[i], v);
        assert((v as char) == w);
        assert((v as char) == id[i]);
    }
    assert(back =~= id);
}

} // verus!
