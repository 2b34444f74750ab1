//! Kernel struct offsets: reading them out of `pahole` listings, and the sidecar
//! manifest that binds a compiled eBPF object to the offsets it was built with.

use sha2::Digest;
use vstd::prelude::*;
use vstd::slice::slice_subrange;
use vstd::string::StringExecFns;

use crate::number;
use crate::number::{decimal_of, hex_of, unsigned_of, NumberError};
use crate::ordered;
use crate::ordered::OrderedMap;
use crate::paths;
use crate::paths::{file_name_of, join_path, path_with_file_name};
use crate::text;
use crate::text::{
    chars_of, first_pair, join, last_pair, leading_word, lines_of, same_chars, stripped_lead, text_before,
    text_of, trailing_word, trimmed,
};

verus! {

/// What `pahole` showed of a struct's field: the byte offset that the comment
/// behind the field's declaration starts with. `None` where `line` declares
/// another field, or none, or gives no offset that fits.
pub open spec fn line_offset(line: Seq<char>, field: Seq<char>) -> Option<nat> {
    let t = text::trim(line);
    match text::rfind_pair(t, '/', '*') {
        None => None,
        Some(open) => {
            let declared = text::last_word(text::before(text::trim(t.take(open)), ';'));
            let name = text::before(text::strip_lead(declared, '*'), ':');
            let comment = t.skip(open + 2);
            if declared.len() == 0 || name != field {
                None
            } else {
                match text::find_pair(comment, '*', '/') {
                    None => None,
                    Some(close) => match number::unsigned_value(
                        text::first_word(text::trim(comment.take(close))),
                        usize::MAX as nat,
                    ) {
                        Ok(v) => Some(v),
                        Err(_) => None,
                    },
                }
            }
        },
    }
}

/// The offset that the first line with one gives.
pub open spec fn listed_offset(lines: Seq<Seq<char>>, field: Seq<char>) -> Option<nat>
    decreases lines.len(),
{
    if lines.len() == 0 {
        None
    } else {
        match line_offset(lines[0], field) {
            Some(v) => Some(v),
            None => listed_offset(lines.skip(1), field),
        }
    }
}

/// What is said of a field that no line of a listing gives an offset for.
pub open spec fn field_missing(field: Seq<char>) -> Seq<char> {
    "field '"@ + field + "' not found in pahole output"@
}

/// The offset that one line of a listing gives for a field.
fn offset_in_line(line: &[char], field: &[char]) -> (res: Option<usize>)
    ensures
        match res {
            Some(v) => line_offset(line@, field@) == Some(v as nat),
            None => line_offset(line@, field@) is None,
        },
{
    let t = trimmed(line);
    let open: usize = match last_pair(t, '/', '*') {
        Some(i) => i,
        None => {
            return None;
        },
    };
    let declaration = text_before(trimmed(slice_subrange(t, 0, open)), ';');
    let declared = trailing_word(declaration);
    if declared.len() == 0 {
        return None;
    }
    let name = text_before(stripped_lead(declared, '*'), ':');
    if !same_chars(name, field) {
        return None;
    }
    let total: usize = t.len();
    let comment = slice_subrange(t, open + 2, total);
    assert(comment@ == t@.skip(open + 2));
    let close: usize = match first_pair(comment, '*', '/') {
        Some(i) => i,
        None => {
            return None;
        },
    };
    let first = leading_word(trimmed(slice_subrange(comment, 0, close)));
    match unsigned_of(first, usize::MAX as u64) {
        Ok(v) => Some(v as usize),
        Err(_) => None,
    }
}

/// The byte offset of a struct's field in `pahole`'s listing of the struct.
pub fn parse_pahole_field_offset(output: &str, field_name: &str) -> (res: Result<usize, String>)
    ensures
        match res {
            Ok(v) => listed_offset(text::lines(output@), field_name@) == Some(v as nat),
            Err(e) => listed_offset(text::lines(output@), field_name@) is None && e@ == field_missing(
                field_name@,
            ),
        },
{
    let chars = chars_of(output);
    let field = chars_of(field_name);
    let rows = lines_of(chars.as_slice());
    let ghost all = text::lines(output@);
    assert(rows@.len() == all.len()) by {
        assert(rows@.map_values(|l: Vec<char>| l@).len() == rows@.len());
    }
    let mut i: usize = 0;
    assert(all.skip(0) == all);
    while i < rows.len()
        invariant
            i <= rows@.len(),
            all == rows@.map_values(|l: Vec<char>| l@),
            all == text::lines(output@),
            field@ == field_name@,
            listed_offset(all, field_name@) == listed_offset(all.skip(i as int), field_name@),
        decreases rows@.len() - i,
    {
        assert(all[i as int] == rows@[i as int]@);
        match offset_in_line(rows[i].as_slice(), field.as_slice()) {
            Some(v) => {
                return Ok(v);
            },
            None => {},
        }
        assert(all.skip(i as int).skip(1) == all.skip(i + 1));
        i = i + 1;
    }
    let mut message = "field '".to_owned();
    message.append(field_name);
    message.append("' not found in pahole output");
    Err(message)
}

/// The sidecar's key for the digest of the object.
pub const OBJECT_SHA256_KEY: &'static str = "OBJECT_SHA256";

/// An offset that was found for a struct's field.
#[derive(Clone, Debug, PartialEq, Eq)]
pub struct ResolvedOffset {
    /// The constant that the eBPF programs know the offset by.
    pub rust_const: &'static str,
    /// The sidecar's key for the offset.
    pub manifest_key: &'static str,
    /// The offset in bytes.
    pub offset: usize,
}

/// What a sidecar says.
#[derive(Clone, Debug, PartialEq, Eq)]
pub struct OffsetManifest {
    /// The digest of the object that the offsets were compiled into.
    pub object_sha256: String,
    /// The offsets by their keys.
    pub offsets: OrderedMap<u64>,
}

/// The entries that a sidecar has for offsets.
pub open spec fn entries(offsets: Seq<ResolvedOffset>) -> Seq<(Seq<char>, nat)> {
    offsets.map_values(|o: ResolvedOffset| (o.manifest_key@, o.offset as nat))
}

/// `line` and the line feed that ends it.
pub open spec fn ended(line: Seq<char>) -> Seq<char> {
    line.push('\n')
}

/// A key, an equals sign and a value.
pub open spec fn assignment(key: Seq<char>, value: Seq<char>) -> Seq<char> {
    key.push('=') + value
}

/// The sidecar's lines for offsets, one each.
pub open spec fn offset_rows(entries: Seq<(Seq<char>, nat)>) -> Seq<char>
    decreases entries.len(),
{
    if entries.len() == 0 {
        Seq::empty()
    } else {
        ended(assignment(entries[0].0, number::decimal(entries[0].1))) + offset_rows(
            entries.skip(1),
        )
    }
}

/// The text of a sidecar: two comment lines, the object's digest, the offsets.
pub open spec fn sidecar_text(object_sha256: Seq<char>, entries: Seq<(Seq<char>, nat)>) -> Seq<
    char,
> {
    ended("# Generated by `cargo xtask build-ebpf`."@) + (ended(
        "# key=value byte offsets compiled into the eBPF object."@,
    ) + (ended(assignment(OBJECT_SHA256_KEY@, object_sha256)) + offset_rows(entries)))
}

/// Appends a key, an equals sign, a value and a line feed.
fn append_assignment(out: &mut String, key: &str, value: &str)
    ensures
        final(out)@ == old(out)@ + ended(assignment(key@, value@)),
{
    out.append(key);
    out.push('=');
    out.append(value);
    out.push('\n');
}

/// The sidecar of an object.
pub fn render_offsets_sidecar(object_sha256: &str, offsets: &[ResolvedOffset]) -> (res: String)
    ensures
        res@ == sidecar_text(object_sha256@, entries(offsets@)),
{
    let mut manifest = "# Generated by `cargo xtask build-ebpf`.".to_owned();
    manifest.push('\n');
    manifest.append("# key=value byte offsets compiled into the eBPF object.");
    manifest.push('\n');
    append_assignment(&mut manifest, OBJECT_SHA256_KEY, object_sha256);
    let ghost all = entries(offsets@);
    let mut i: usize = 0;
    assert(all.skip(0) == all);
    while i < offsets.len()
        invariant
            i <= offsets@.len(),
            all == entries(offsets@),
            manifest@ + offset_rows(all.skip(i as int)) == sidecar_text(object_sha256@, all),
        decreases offsets@.len() - i,
    {
        let value = decimal_of(offsets[i].offset as u64);
        let ghost had = manifest@;
        append_assignment(&mut manifest, offsets[i].manifest_key, value.as_str());
        assert(all.skip(i as int)[0] == all[i as int]);
        assert(all.skip(i as int).skip(1) == all.skip(i + 1));
        i = i + 1;
    }
    assert(all.skip(i as int) == Seq::<(Seq<char>, nat)>::empty());
    manifest
}

/// What one line of a sidecar is.
pub enum SidecarLine {
    /// Blank, or a comment.
    Nothing,
    /// Neither of these, and without an equals sign.
    Malformed,
    /// The object's digest.
    Digest(Seq<char>),
    /// The offset under a key.
    Offset(Seq<char>, u64),
    /// A key whose value is no offset.
    Unreadable(Seq<char>, NumberError),
}

/// How a line of a sidecar is read: white space at either side of the line, of
/// the key and of the value counts for nothing.
pub open spec fn sidecar_line(line: Seq<char>) -> SidecarLine {
    let t = text::trim(line);
    let key = text::trim(text::before(t, '='));
    let value = text::trim(text::behind(t, '='));
    if t.len() == 0 || t[0] == '#' {
        SidecarLine::Nothing
    } else if !t.contains('=') {
        SidecarLine::Malformed
    } else if key == OBJECT_SHA256_KEY@ {
        SidecarLine::Digest(value)
    } else {
        match number::unsigned_value(value, u64::MAX as nat) {
            Ok(v) => SidecarLine::Offset(key, v as u64),
            Err(e) => SidecarLine::Unreadable(key, e),
        }
    }
}

/// What has been read of a sidecar.
pub struct SidecarRead {
    /// The object's digest, once it has been met.
    pub digest: Option<Seq<char>>,
    /// The offsets met.
    pub offsets: Seq<(Seq<char>, u64)>,
}

/// What is said of a line that is neither blank, nor a comment, nor an assignment.
pub open spec fn malformed_line(number: nat) -> Seq<char> {
    "invalid offsets sidecar line "@ + number::decimal(number)
}

/// What is said of a sidecar with two digests.
pub open spec fn duplicate_digest() -> Seq<char> {
    "duplicate "@ + OBJECT_SHA256_KEY@ + " in offsets sidecar"@
}

/// What is said of a sidecar without a digest.
pub open spec fn missing_digest() -> Seq<char> {
    "missing "@ + OBJECT_SHA256_KEY@ + " in offsets sidecar"@
}

/// What is said of a value that is no offset.
pub open spec fn unreadable_offset(key: Seq<char>, error: NumberError) -> Seq<char> {
    "invalid offset value for "@ + key + ": "@ + error.text()
}

/// What is said of a key that has an offset already.
pub open spec fn duplicate_offset(key: Seq<char>) -> Seq<char> {
    "duplicate offset key "@ + key + " in offsets sidecar"@
}

/// What has been read once line `number` has been read too.
pub open spec fn absorb(read: SidecarRead, number: nat, line: Seq<char>) -> Result<
    SidecarRead,
    Seq<char>,
> {
    match sidecar_line(line) {
        SidecarLine::Nothing => Ok(read),
        SidecarLine::Malformed => Err(malformed_line(number)),
        SidecarLine::Digest(value) => if read.digest is Some {
            Err(duplicate_digest())
        } else {
            Ok(SidecarRead { digest: Some(value), ..read })
        },
        SidecarLine::Offset(key, value) => if ordered::lookup(read.offsets, key) is Some {
            Err(duplicate_offset(key))
        } else {
            Ok(SidecarRead { offsets: ordered::put(read.offsets, key, value), ..read })
        },
        SidecarLine::Unreadable(key, e) => Err(unreadable_offset(key, e)),
    }
}

/// What the lines of a sidecar say, read in order; the error is that of the
/// first line that has one.
pub open spec fn absorb_all(lines: Seq<Seq<char>>) -> Result<SidecarRead, Seq<char>>
    decreases lines.len(),
{
    if lines.len() == 0 {
        Ok(SidecarRead { digest: None, offsets: Seq::empty() })
    } else {
        match absorb_all(lines.drop_last()) {
            Ok(read) => absorb(read, lines.len(), lines.last()),
            Err(e) => Err(e),
        }
    }
}

/// Reading goes no further than the first line with an error.
proof fn lemma_absorb_stops(lines: Seq<Seq<char>>, n: int)
    requires
        0 <= n <= lines.len(),
        absorb_all(lines.take(n)) is Err,
    ensures
        absorb_all(lines) == absorb_all(lines.take(n)),
    decreases lines.len() - n,
{
    if n < lines.len() {
        assert(lines.take(n + 1).drop_last() == lines.take(n));
        lemma_absorb_stops(lines, n + 1);
    } else {
        assert(lines.take(n) == lines);
    }
}

/// Reads a sidecar.
pub fn parse_offsets_sidecar(content: &str) -> (res: Result<OffsetManifest, String>)
    ensures
        match (res, absorb_all(text::lines(content@))) {
            (Ok(m), Ok(read)) => read.digest == Some(m.object_sha256@) && m.offsets@
                == read.offsets,
            (Err(e), Ok(read)) => read.digest is None && e@ == missing_digest(),
            (Err(e), Err(why)) => e@ == why,
            (Ok(_), Err(_)) => false,
        },
{
    let chars = chars_of(content);
    let rows = lines_of(chars.as_slice());
    let ghost all = text::lines(content@);
    assert(all == rows@.map_values(|l: Vec<char>| l@));
    let mut object_sha256: Option<String> = None;
    let mut offsets: OrderedMap<u64> = OrderedMap::new();
    let mut i: usize = 0;
    assert(all.take(0) == Seq::<Seq<char>>::empty());
    while i < rows.len()
        invariant
            i <= rows@.len(),
            all == rows@.map_values(|l: Vec<char>| l@),
            all == text::lines(content@),
            absorb_all(all.take(i as int)) == Ok::<SidecarRead, Seq<char>>(
                SidecarRead {
                    digest: text::text_in(object_sha256),
                    offsets: offsets@,
                },
            ),
        decreases rows@.len() - i,
    {
        assert(all[i as int] == rows@[i as int]@);
        assert(all.take(i + 1).drop_last() == all.take(i as int));
        let ghost read = SidecarRead {
            digest: text::text_in(object_sha256),
            offsets: offsets@,
        };
        assert(absorb_all(all.take(i + 1)) == absorb(read, (i + 1) as nat, all[i as int]));
        let t = trimmed(rows[i].as_slice());
        if t.len() == 0 || t[0] == '#' {
            i = i + 1;
            continue;
        }
        let total: usize = t.len();
        let at: usize = text::position_of(t, '=');
        if at >= total {
            let mut message = "invalid offsets sidecar line ".to_owned();
            message.append(decimal_of((i as u64) + 1).as_str());
            proof {
                lemma_absorb_stops(all, i + 1);
            }
            return Err(message);
        }
        let key = text_of(trimmed(slice_subrange(t, 0, at)));
        let value = trimmed(slice_subrange(t, at + 1, total));
        assert(value@ == text::trim(text::behind(t@, '=')));
        if text::same(key.as_str(), OBJECT_SHA256_KEY) {
            if object_sha256.is_some() {
                let mut message = "duplicate ".to_owned();
                message.append(OBJECT_SHA256_KEY);
                message.append(" in offsets sidecar");
                proof {
                    lemma_absorb_stops(all, i + 1);
                }
                return Err(message);
            }
            object_sha256 = Some(text_of(value));
            i = i + 1;
            continue;
        }
        let offset: u64 = match unsigned_of(value, u64::MAX) {
            Ok(v) => v,
            Err(e) => {
                let mut message = "invalid offset value for ".to_owned();
                message.append(key.as_str());
                message.append(": ");
                message.append(e.message());
                proof {
                    lemma_absorb_stops(all, i + 1);
                }
                return Err(message);
            },
        };
        let had = offsets.insert(key.clone(), offset);
        if had.is_some() {
            let mut message = "duplicate offset key ".to_owned();
            message.append(key.as_str());
            message.append(" in offsets sidecar");
            proof {
                lemma_absorb_stops(all, i + 1);
            }
            return Err(message);
        }
        i = i + 1;
    }
    assert(all.take(i as int) == all);
    match object_sha256 {
        Some(object_sha256) => Ok(OffsetManifest { object_sha256, offsets }),
        None => {
            let mut message = "missing ".to_owned();
            message.append(OBJECT_SHA256_KEY);
            message.append(" in offsets sidecar");
            Err(message)
        },
    }
}

/// What `sha2::Sha256::digest` makes of bytes.
pub uninterp spec fn sha256_digest(data: Seq<u8>) -> Seq<u8>;

/// `sha2::Sha256::digest`: the digest depends on the bytes alone, and has 32 bytes.
#[verifier::external_body]
fn sha256(data: &[u8]) -> (res: Vec<u8>)
    ensures
        res@ == sha256_digest(data@),
        res@.len() == 32,
{
    sha2::Sha256::digest(data).to_vec()
}

/// The digest of an object's bytes, in lower-case hexadecimal.
pub fn object_sha256(data: &[u8]) -> (res: String)
    ensures
        res@ == number::hex(sha256_digest(data@)),
{
    let digest = sha256(data);
    hex_of(digest.as_slice())
}

/// Where the sidecar of an object is found: beside it, under its name and `.offsets.json`.
pub open spec fn sidecar_path(object: Seq<char>) -> Seq<char> {
    paths::with_file_name(
        object,
        (match paths::file_name(object) {
            Some(name) => name,
            None => "rauha-ebpf"@,
        }) + ".offsets.json"@,
    )
}

/// Where the sidecar of an object is found.
pub fn offsets_sidecar_path(ebpf_obj_path: &str) -> (res: String)
    ensures
        res@ == sidecar_path(ebpf_obj_path@),
{
    let mut name = match file_name_of(ebpf_obj_path) {
        Some(name) => name,
        None => "rauha-ebpf".to_owned(),
    };
    name.append(".offsets.json");
    path_with_file_name(ebpf_obj_path, name.as_str())
}

/// The sidecar of a named object has the object's name and `.offsets.json`; so two
/// objects in one directory never share a sidecar.
pub proof fn law_sidecar_is_named_after_object(object: Seq<char>)
    requires
        paths::file_name(object) is Some,
    ensures
        paths::file_name(sidecar_path(object)) == Some(
            paths::file_name(object)->Some_0 + ".offsets.json"@,
        ),
{
    reveal_strlit(".offsets.json");
    let name = paths::file_name(object)->Some_0;
    let s = paths::settle(object);
    text::lemma_run_back_facts(s, text::other_than('/'));
    let full = name + ".offsets.json"@;
    assert forall|i: int| 0 <= i < full.len() implies #[trigger] full[i] != '/' by {
        if i < name.len() {
            assert(text::other_than('/')(s[paths::last_start(s) + i]));
        }
    }
    assert(full.len() > 2);
    paths::law_file_name_is_replaced(object, full);
}

/// What `String::from_utf8_lossy` makes of bytes.
pub uninterp spec fn utf8_lossy(bytes: Seq<u8>) -> Seq<char>;

/// `String::from_utf8_lossy`: the text depends on the bytes alone, and is the
/// text that they encode where they are valid UTF-8.
#[verifier::external_body]
fn lossy_text(bytes: &[u8]) -> (res: String)
    ensures
        res@ == utf8_lossy(bytes@),
        vstd::utf8::valid_utf8(bytes@) ==> res@ == vstd::utf8::decode_utf8(bytes@),
{
    String::from_utf8_lossy(bytes).into_owned()
}

/// How a run of `pahole` ended.
#[derive(Clone, Debug, PartialEq, Eq)]
pub enum PaholeRun {
    /// It could not be started, for the reason given.
    NotStarted(String),
    /// It ended with an error, and wrote this to its error output.
    Failed(Vec<u8>),
    /// It ended well, and wrote this to its output.
    Finished(Vec<u8>),
}

/// The field's offset by a run of `pahole` on its type, or why there is none.
pub open spec fn run_offset(
    pahole: Seq<char>,
    struct_name: Seq<char>,
    field_name: Seq<char>,
    run: PaholeRun,
) -> Result<nat, Seq<char>> {
    match run {
        PaholeRun::NotStarted(reason) => Err("failed to run "@ + pahole + ": "@ + reason@),
        PaholeRun::Failed(stderr) => Err(
            "pahole failed for "@ + struct_name + ": "@ + text::trim(utf8_lossy(stderr@)),
        ),
        PaholeRun::Finished(stdout) => match listed_offset(
            text::lines(utf8_lossy(stdout@)),
            field_name,
        ) {
            Some(v) => Ok(v),
            None => Err(field_missing(field_name)),
        },
    }
}

/// The field's offset by a run of `pahole` on its type.
pub fn pahole_field_offset(
    pahole: &str,
    struct_name: &str,
    field_name: &str,
    run: &PaholeRun,
) -> (res: Result<usize, String>)
    ensures
        match res {
            Ok(v) => run_offset(pahole@, struct_name@, field_name@, *run) == Ok::<nat, Seq<char>>(
                v as nat,
            ),
            Err(e) => run_offset(pahole@, struct_name@, field_name@, *run) == Err::<nat, Seq<char>>(
                e@,
            ),
        },
{
    match run {
        PaholeRun::NotStarted(reason) => {
            let mut message = "failed to run ".to_owned();
            message.append(pahole);
            message.append(": ");
            message.append(reason.as_str());
            Err(message)
        },
        PaholeRun::Failed(stderr) => {
            let said = lossy_text(stderr.as_slice());
            let chars = chars_of(said.as_str());
            let mut message = "pahole failed for ".to_owned();
            message.append(struct_name);
            message.append(": ");
            message.append(text_of(trimmed(chars.as_slice())).as_str());
            Err(message)
        },
        PaholeRun::Finished(stdout) => {
            let listing = lossy_text(stdout.as_slice());
            parse_pahole_field_offset(listing.as_str(), field_name)
        },
    }
}

/// Whether `lookup`, asked for a type's field, can give this answer.
pub open spec fn answers<F: Fn(&str, &str) -> Result<usize, String>>(
    lookup: F,
    struct_name: Seq<char>,
    field_name: Seq<char>,
    answer: Result<usize, String>,
) -> bool {
    exists|a: &str, b: &str|
        a@ == struct_name && b@ == field_name && #[trigger] call_ensures(lookup, (a, b), answer)
}

/// Whether `lookup`, asked for a type's field, can fail.
pub open spec fn can_miss<F: Fn(&str, &str) -> Result<usize, String>>(
    lookup: F,
    struct_name: Seq<char>,
    field_name: Seq<char>,
) -> bool {
    exists|e: String| #[trigger] answers(lookup, struct_name, field_name, Err(e))
}

/// Whether `lookup` gives `offset` for the first of the fields that it finds.
pub open spec fn finds<F: Fn(&str, &str) -> Result<usize, String>>(
    lookup: F,
    struct_name: Seq<char>,
    fields: Seq<Seq<char>>,
    offset: usize,
) -> bool {
    exists|k: int|
        #![trigger fields[k]]
        0 <= k < fields.len() && answers(lookup, struct_name, fields[k], Ok(offset)) && (forall|j: int|
            0 <= j < k ==> can_miss(lookup, struct_name, #[trigger] fields[j]))
}

/// Whether `lookup` finds none of the fields.
pub open spec fn misses<F: Fn(&str, &str) -> Result<usize, String>>(
    lookup: F,
    struct_name: Seq<char>,
    fields: Seq<Seq<char>>,
) -> bool {
    forall|j: int| 0 <= j < fields.len() ==> can_miss(lookup, struct_name, #[trigger] fields[j])
}

/// What is said where none of the fields is found.
pub open spec fn none_found(struct_name: Seq<char>, fields: Seq<Seq<char>>) -> Seq<char> {
    "none of fields ["@ + text::joined(fields, ", "@) + "] found in pahole output for '"@
        + struct_name + "'"@
}

/// The texts of string slices.
pub open spec fn names(fields: Seq<&str>) -> Seq<Seq<char>> {
    fields.map_values(|s: &str| s@)
}

/// The offset of the first of the fields that `lookup` finds in the type.
pub fn pahole_field_offset_any<F: Fn(&str, &str) -> Result<usize, String>>(
    lookup: &F,
    struct_name: &str,
    field_names: &[&str],
) -> (res: Result<usize, String>)
    requires
        forall|a: &str, b: &str| #[trigger] call_requires(*lookup, (a, b)),
    ensures
        match res {
            Ok(v) => finds(*lookup, struct_name@, names(field_names@), v),
            Err(e) => misses(*lookup, struct_name@, names(field_names@)) && e@ == none_found(
                struct_name@,
                names(field_names@),
            ),
        },
{
    let mut listed: Vec<String> = Vec::new();
    let ghost all = names(field_names@);
    let mut i: usize = 0;
    while i < field_names.len()
        invariant
            i <= field_names@.len(),
            all == names(field_names@),
            text::texts(listed@) == all.take(i as int),
            forall|a: &str, b: &str| #[trigger] call_requires(*lookup, (a, b)),
            forall|j: int| 0 <= j < i ==> can_miss(*lookup, struct_name@, #[trigger] all[j]),
        decreases field_names@.len() - i,
    {
        let name = field_names[i];
        assert(all[i as int] == name@);
        match lookup(struct_name, name) {
            Ok(v) => {
                assert(answers(*lookup, struct_name@, name@, Ok(v)));
                return Ok(v);
            },
            Err(e) => {
                assert(answers(*lookup, struct_name@, name@, Err(e)));
            },
        }
        let ghost had = listed@;
        listed.push(name.to_owned());
        assert(text::texts(listed@) == text::texts(had).push(name@));
        assert(all.take(i + 1) == all.take(i as int).push(name@));
        i = i + 1;
    }
    assert(all.take(all.len() as int) == all);
    let mut message = "none of fields [".to_owned();
    message.append(join(&listed, ", ").as_str());
    message.append("] found in pahole output for '");
    message.append(struct_name);
    message.append("'");
    Err(message)
}

/// A kernel struct's field whose offset the eBPF programs need.
#[derive(Clone, Debug, PartialEq, Eq)]
pub struct OffsetDef {
    /// The struct.
    pub struct_name: &'static str,
    /// The names that the field goes by, in the order in which they are tried.
    pub field_names: Vec<&'static str>,
    /// The constant that the eBPF programs know the offset by.
    pub rust_const: &'static str,
    /// The sidecar's key for the offset.
    pub manifest_key: &'static str,
}

/// The texts of an `OffsetDef`.
pub struct OffsetDefText {
    pub struct_name: Seq<char>,
    pub field_names: Seq<Seq<char>>,
    pub rust_const: Seq<char>,
    pub manifest_key: Seq<char>,
}

impl View for OffsetDef {
    type V = OffsetDefText;

    open spec fn view(&self) -> OffsetDefText {
        OffsetDefText {
            struct_name: self.struct_name@,
            field_names: names(self.field_names@),
            rust_const: self.rust_const@,
            manifest_key: self.manifest_key@,
        }
    }
}

/// One field, its constant, and its key: the constant's name and `_OFFSET`.
pub open spec fn def_text(
    struct_name: Seq<char>,
    field_names: Seq<Seq<char>>,
    rust_const: Seq<char>,
    manifest_key: Seq<char>,
) -> OffsetDefText {
    OffsetDefText { struct_name, field_names, rust_const, manifest_key }
}

/// The fields whose offsets the eBPF programs need.
pub open spec fn defined() -> Seq<OffsetDefText> {
    seq![
        def_text("task_struct"@, seq!["cgroups"@], "TASK_CGROUPS"@, "TASK_CGROUPS_OFFSET"@),
        def_text("css_set"@, seq!["dfl_cgrp"@], "CSS_SET_DFL_CGRP"@, "CSS_SET_DFL_CGRP_OFFSET"@),
        def_text("cgroup"@, seq!["kn"@], "CGROUP_KN"@, "CGROUP_KN_OFFSET"@),
        def_text("kernfs_node"@, seq!["id"@], "KERNFS_NODE_ID"@, "KERNFS_NODE_ID_OFFSET"@),
        def_text("file"@, seq!["f_inode"@], "FILE_F_INODE"@, "FILE_F_INODE_OFFSET"@),
        def_text("inode"@, seq!["i_ino"@], "INODE_I_INO"@, "INODE_I_INO_OFFSET"@),
        def_text(
            "linux_binprm"@,
            seq!["file"@, "executable"@],
            "BPRM_FILE"@,
            "BPRM_FILE_OFFSET"@,
        ),
    ]
}

/// A field that goes by one name.
fn single_def(
    struct_name: &'static str,
    field_name: &'static str,
    rust_const: &'static str,
    manifest_key: &'static str,
) -> (res: OffsetDef)
    ensures
        res@ == def_text(struct_name@, seq![field_name@], rust_const@, manifest_key@),
{
    let mut field_names: Vec<&'static str> = Vec::new();
    field_names.push(field_name);
    assert(names(field_names@) == seq![field_name@]);
    OffsetDef { struct_name, field_names, rust_const, manifest_key }
}

/// The fields whose offsets the eBPF programs need. A program that is checked
/// before it runs looks at the binary's `file`; newer kernels have a separate
/// `executable` that may be filled in later.
pub fn offset_defs() -> (res: Vec<OffsetDef>)
    ensures
        res@.map_values(|d: OffsetDef| d@) == defined(),
{
    let mut binary: Vec<&'static str> = Vec::new();
    binary.push("file");
    binary.push("executable");
    assert(names(binary@) == seq!["file"@, "executable"@]);
    let mut defs: Vec<OffsetDef> = Vec::new();
    defs.push(single_def("task_struct", "cgroups", "TASK_CGROUPS", "TASK_CGROUPS_OFFSET"));
    defs.push(single_def("css_set", "dfl_cgrp", "CSS_SET_DFL_CGRP", "CSS_SET_DFL_CGRP_OFFSET"));
    defs.push(single_def("cgroup", "kn", "CGROUP_KN", "CGROUP_KN_OFFSET"));
    defs.push(single_def("kernfs_node", "id", "KERNFS_NODE_ID", "KERNFS_NODE_ID_OFFSET"));
    defs.push(single_def("file", "f_inode", "FILE_F_INODE", "FILE_F_INODE_OFFSET"));
    defs.push(single_def("inode", "i_ino", "INODE_I_INO", "INODE_I_INO_OFFSET"));
    defs.push(
        OffsetDef {
            struct_name: "linux_binprm",
            field_names: binary,
            rust_const: "BPRM_FILE",
            manifest_key: "BPRM_FILE_OFFSET",
        },
    );
    assert(defs@.map_values(|d: OffsetDef| d@) == defined());
    defs
}

/// What is said where there is no `pahole` to ask.
pub open spec fn pahole_missing() -> Seq<char> {
    "pahole not found; install dwarves or put pahole on PATH"@
}

/// Whether an offset is what `lookup` finds for a definition.
pub open spec fn resolves<F: Fn(&str, &str) -> Result<usize, String>>(
    lookup: F,
    def: OffsetDefText,
    resolved: ResolvedOffset,
) -> bool {
    &&& resolved.rust_const@ == def.rust_const
    &&& resolved.manifest_key@ == def.manifest_key
    &&& finds(lookup, def.struct_name, def.field_names, resolved.offset)
}

/// Whether `lookup` finds an offset for a definition.
pub open spec fn can_find<F: Fn(&str, &str) -> Result<usize, String>>(
    lookup: F,
    def: OffsetDefText,
) -> bool {
    exists|offset: usize| #[trigger] finds(lookup, def.struct_name, def.field_names, offset)
}

/// Whether `lookup` first fails at definition `i`, with this error.
pub open spec fn fails_at<F: Fn(&str, &str) -> Result<usize, String>>(
    lookup: F,
    i: int,
    error: Seq<char>,
) -> bool {
    &&& 0 <= i < defined().len()
    &&& misses(lookup, defined()[i].struct_name, defined()[i].field_names)
    &&& error == none_found(defined()[i].struct_name, defined()[i].field_names)
    &&& forall|j: int| 0 <= j < i ==> can_find(lookup, #[trigger] defined()[j])
}

/// Whether offsets are what `lookup` finds for all definitions, in their order.
pub open spec fn resolves_all<F: Fn(&str, &str) -> Result<usize, String>>(
    lookup: F,
    found: Seq<ResolvedOffset>,
) -> bool {
    &&& found.len() == defined().len()
    &&& forall|i: int| 0 <= i < found.len() ==> resolves(lookup, defined()[i], #[trigger] found[i])
}

/// Whether resolving the offsets can end in this error.
pub open spec fn resolve_error<F: Fn(&str, &str) -> Result<usize, String>>(
    lookup: F,
    pahole_known: bool,
    error: Seq<char>,
) -> bool {
    if pahole_known {
        exists|i: int| #[trigger] fails_at(lookup, i, error)
    } else {
        error == pahole_missing()
    }
}

/// The offsets of all fields that the eBPF programs need, in the order of their
/// definitions, from `lookup`; without a `pahole` there are none.
pub fn resolve_kernel_offsets<F: Fn(&str, &str) -> Result<usize, String>>(
    pahole: Option<&str>,
    lookup: &F,
) -> (res: Result<Vec<ResolvedOffset>, String>)
    requires
        forall|a: &str, b: &str| #[trigger] call_requires(*lookup, (a, b)),
    ensures
        match res {
            Ok(found) => pahole is Some && resolves_all(*lookup, found@),
            Err(e) => resolve_error(*lookup, pahole is Some, e@),
        },
{
    if pahole.is_none() {
        return Err("pahole not found; install dwarves or put pahole on PATH".to_owned());
    }
    let defs = offset_defs();
    let ghost all = defined();
    let mut offsets: Vec<ResolvedOffset> = Vec::new();
    let mut i: usize = 0;
    while i < defs.len()
        invariant
            i <= defs@.len(),
            pahole is Some,
            all == defined(),
            all == defs@.map_values(|d: OffsetDef| d@),
            offsets@.len() == i,
            forall|a: &str, b: &str| #[trigger] call_requires(*lookup, (a, b)),
            forall|j: int| 0 <= j < i ==> resolves(*lookup, all[j], #[trigger] offsets@[j]),
        decreases defs@.len() - i,
    {
        let def = &defs[i];
        assert(all[i as int] == def@);
        match pahole_field_offset_any(lookup, def.struct_name, def.field_names.as_slice()) {
            Ok(offset) => {
                offsets.push(
                    ResolvedOffset {
                        rust_const: def.rust_const,
                        manifest_key: def.manifest_key,
                        offset,
                    },
                );
            },
            Err(e) => {
                proof {
                    assert forall|j: int| 0 <= j < i implies can_find(
                        *lookup,
                        #[trigger] all[j],
                    ) by {
                        assert(resolves(*lookup, all[j], offsets@[j]));
                    }
                    assert(fails_at(*lookup, i as int, e@));
                }
                return Err(e);
            },
        }
        i = i + 1;
    }
    Ok(offsets)
}

/// The offsets of all fields that the eBPF programs need, by their sidecar keys.
pub fn resolve_kernel_offsets_map<F: Fn(&str, &str) -> Result<usize, String>>(
    pahole: Option<&str>,
    lookup: &F,
) -> (res: Result<OrderedMap<u64>, String>)
    requires
        forall|a: &str, b: &str| #[trigger] call_requires(*lookup, (a, b)),
    ensures
        match res {
            Ok(map) => pahole is Some && exists|found: Seq<ResolvedOffset>| #[trigger]
                resolves_all(*lookup, found) && map@ == put_all(entries(found)),
            Err(e) => resolve_error(*lookup, pahole is Some, e@),
        },
{
    let resolved = match resolve_kernel_offsets(pahole, lookup) {
        Ok(resolved) => resolved,
        Err(e) => {
            return Err(e);
        },
    };
    let mut offsets: OrderedMap<u64> = OrderedMap::new();
    let ghost all = entries(resolved@);
    let mut i: usize = 0;
    assert(all.take(0) == Seq::<(Seq<char>, nat)>::empty());
    while i < resolved.len()
        invariant
            i <= resolved@.len(),
            all == entries(resolved@),
            offsets@ == put_all(all.take(i as int)),
        decreases resolved@.len() - i,
    {
        offsets.insert(resolved[i].manifest_key.to_owned(), resolved[i].offset as u64);
        assert(all.take(i + 1).drop_last() == all.take(i as int));
        assert(all.take(i + 1).last() == all[i as int]);
        i = i + 1;
    }
    assert(all.take(all.len() as int) == all);
    Ok(offsets)
}

/// The directories that a search path names, between colons.
pub open spec fn path_dirs(path: Seq<char>) -> Seq<Seq<char>>
    decreases path.len(),
{
    if path.contains(':') && text::behind(path, ':').len() < path.len() {
        seq![text::before(path, ':')] + path_dirs(text::behind(path, ':'))
    } else {
        seq![path]
    }
}

/// Where `pahole` is looked for: in two fixed places, then in the directories of
/// the search path.
pub open spec fn pahole_places(path: Option<Seq<char>>) -> Seq<Seq<char>> {
    seq!["/usr/bin/pahole"@, "/usr/local/bin/pahole"@] + match path {
        None => Seq::empty(),
        Some(path) => path_dirs(path).map_values(|dir: Seq<char>| paths::join(dir, "pahole"@)),
    }
}

/// The text of a string slice that may be there.
pub open spec fn slice_in(o: Option<&str>) -> Option<Seq<char>> {
    match o {
        Some(s) => Some(s@),
        None => None,
    }
}

/// Where `pahole` is looked for, in order.
pub fn pahole_candidates(path_var: Option<&str>) -> (res: Vec<String>)
    ensures
        text::texts(res@) == pahole_places(slice_in(path_var)),
{
    let mut out: Vec<String> = Vec::new();
    out.push("/usr/bin/pahole".to_owned());
    out.push("/usr/local/bin/pahole".to_owned());
    assert(text::texts(out@) == seq!["/usr/bin/pahole"@, "/usr/local/bin/pahole"@]);
    let path = match path_var {
        Some(path) => path,
        None => {
            return out;
        },
    };
    let chars = chars_of(path);
    let ghost place = |dir: Seq<char>| paths::join(dir, "pahole"@);
    let ghost all = path_dirs(path@).map_values(place);
    let ghost fixed = text::texts(out@);
    let mut at: usize = 0;
    let mut more = true;
    let total: usize = chars.len();
    assert(chars@.skip(0) == chars@);
    assert(fixed + path_dirs(path@).map_values(place) == fixed + all);
    while more
        invariant
            at <= total,
            total == chars@.len(),
            place == (|dir: Seq<char>| paths::join(dir, "pahole"@)),
            more ==> text::texts(out@) + path_dirs(chars@.skip(at as int)).map_values(place)
                == fixed + all,
            !more ==> text::texts(out@) == fixed + all,
        decreases
            total - at,
            if more {
                1int
            } else {
                0int
            },
    {
        let rest = slice_subrange(chars.as_slice(), at, total);
        let ghost left = chars@.skip(at as int);
        assert(rest@ == left);
        let n: usize = text::position_of(rest, ':');
        let dir = text_of(slice_subrange(rest, 0, n));
        let ghost had = text::texts(out@);
        let found = join_path(dir.as_str(), "pahole");
        out.push(found);
        assert(text::texts(out@) == had.push(found@));
        assert(found@ == place(dir@));
        if n < rest.len() {
            assert(left.skip(n + 1) == chars@.skip(at + n + 1));
            assert(path_dirs(left) == seq![dir@] + path_dirs(left.skip(n + 1)));
            assert(path_dirs(left).map_values(place) == seq![found@] + path_dirs(
                left.skip(n + 1),
            ).map_values(place));
            at = at + n + 1;
        } else {
            assert(dir@ == left);
            assert(path_dirs(left).map_values(place) == seq![found@]);
            more = false;
        }
    }
    out
}

/// The first of the places where `pahole` is looked for that `exists` accepts.
pub fn which_pahole<F: Fn(&str) -> bool>(path_var: Option<&str>, exists_at: &F) -> (res: Option<
    String,
>)
    requires
        forall|a: &str| #[trigger] call_requires(*exists_at, (a,)),
    ensures
        match res {
            Some(place) => exists|k: int|
                #![trigger pahole_places(slice_in(path_var))[k]]
                0 <= k < pahole_places(slice_in(path_var)).len() && place@ == pahole_places(
                    slice_in(path_var),
                )[k] && said(*exists_at, place@, true) && (forall|j: int|
                    0 <= j < k ==> said(
                        *exists_at,
                        #[trigger] pahole_places(slice_in(path_var))[j],
                        false,
                    )),
            None => forall|j: int|
                0 <= j < pahole_places(slice_in(path_var)).len() ==> said(
                    *exists_at,
                    #[trigger] pahole_places(slice_in(path_var))[j],
                    false,
                ),
        },
{
    let candidates = pahole_candidates(path_var);
    let ghost all = pahole_places(slice_in(path_var));
    assert(text::texts(candidates@) == all);
    let mut i: usize = 0;
    while i < candidates.len()
        invariant
            i <= candidates@.len(),
            all == pahole_places(slice_in(path_var)),
            text::texts(candidates@) == all,
            forall|a: &str| #[trigger] call_requires(*exists_at, (a,)),
            forall|j: int| 0 <= j < i ==> said(*exists_at, #[trigger] all[j], false),
        decreases candidates@.len() - i,
    {
        let place = candidates[i].as_str();
        assert(all[i as int] == place@);
        let there = exists_at(place);
        assert(said(*exists_at, place@, there));
        if there {
            return Some(candidates[i].clone());
        }
        i = i + 1;
    }
    None
}

/// Whether `exists_at`, asked for a place, can give this answer.
pub open spec fn said<F: Fn(&str) -> bool>(exists_at: F, place: Seq<char>, answer: bool) -> bool {
    exists|a: &str| a@ == place && #[trigger] call_ensures(exists_at, (a,), answer)
}

/// Whether a text survives being written on a line and trimmed.
pub open spec fn settled(s: Seq<char>) -> bool {
    text::trim(s) == s && !s.contains('\n')
}

/// Whether a text can be an offset's key in a sidecar.
pub open spec fn sidecar_key(key: Seq<char>) -> bool {
    &&& settled(key)
    &&& !key.contains('=')
    &&& key.len() > 0 ==> key[0] != '#'
    &&& key != OBJECT_SHA256_KEY@
}

/// The entries put under their keys one after another.
pub open spec fn put_all(entries: Seq<(Seq<char>, nat)>) -> Seq<(Seq<char>, u64)>
    decreases entries.len(),
{
    if entries.len() == 0 {
        Seq::empty()
    } else {
        ordered::put(put_all(entries.drop_last()), entries.last().0, entries.last().1 as u64)
    }
}

/// The lines that offsets stand on in a sidecar.
spec fn row_lines(entries: Seq<(Seq<char>, nat)>) -> Seq<Seq<char>> {
    entries.map_values(|e: (Seq<char>, nat)| assignment(e.0, number::decimal(e.1)))
}

proof fn lemma_row(key: Seq<char>, value: nat)
    requires
        sidecar_key(key),
        value <= u64::MAX,
    ensures
        !assignment(key, number::decimal(value)).contains('\n'),
        text::chomp(assignment(key, number::decimal(value))) == assignment(
            key,
            number::decimal(value),
        ),
        sidecar_line(assignment(key, number::decimal(value))) == SidecarLine::Offset(
            key,
            value as u64,
        ),
{
    let v = number::decimal(value);
    let line = assignment(key, v);
    number::lemma_decimal_digits(value);
    assert(number::is_digit(v[0]) && number::is_digit(v[v.len() - 1]));
    assert forall|i: int| 0 <= i < line.len() implies #[trigger] line[i] != '\n' by {
        if i < key.len() {
            assert(key.contains(key[i]));
        } else if i > key.len() {
            assert(number::is_digit(v[i - key.len() - 1]));
        }
    }
    text::lemma_trim_keeps(key);
    text::lemma_trim_keeps(v);
    text::lemma_trim_keeps(line);
    text::lemma_split_at(key, '=', v);
    number::law_decimal_is_read_back(value, u64::MAX as nat);
}

proof fn lemma_row_lines(entries: Seq<(Seq<char>, nat)>)
    requires
        forall|i: int|
            0 <= i < entries.len() ==> sidecar_key((#[trigger] entries[i]).0) && entries[i].1
                <= u64::MAX,
    ensures
        text::lines(offset_rows(entries)) == row_lines(entries),
    decreases entries.len(),
{
    if entries.len() > 0 {
        let rest = entries.skip(1);
        assert forall|i: int| 0 <= i < rest.len() implies sidecar_key((#[trigger] rest[i]).0)
            && rest[i].1 <= u64::MAX by {
            assert(rest[i] == entries[i + 1]);
        }
        lemma_row_lines(rest);
        lemma_row(entries[0].0, entries[0].1);
        text::lemma_lines_front(
            assignment(entries[0].0, number::decimal(entries[0].1)),
            offset_rows(rest),
        );
        assert(row_lines(entries) == seq![
            assignment(entries[0].0, number::decimal(entries[0].1)),
        ] + row_lines(rest));
    }
}

/// The keys of entries put are the entries' own.
proof fn lemma_put_all(entries: Seq<(Seq<char>, nat)>, key: Seq<char>)
    ensures
        ordered::rising(put_all(entries)),
        (forall|i: int| 0 <= i < entries.len() ==> (#[trigger] entries[i]).0 != key)
            ==> ordered::lookup(put_all(entries), key) is None,
    decreases entries.len(),
{
    if entries.len() > 0 {
        let front = entries.drop_last();
        lemma_put_all(front, key);
        ordered::law_put_keeps_order(
            put_all(front),
            entries.last().0,
            entries.last().1 as u64,
        );
        ordered::law_put_is_looked_up(
            put_all(front),
            entries.last().0,
            entries.last().1 as u64,
            key,
        );
        if forall|i: int| 0 <= i < entries.len() ==> (#[trigger] entries[i]).0 != key {
            assert forall|i: int| 0 <= i < front.len() implies (#[trigger] front[i]).0 != key by {
                assert(front[i] == entries[i]);
            }
            assert(entries[entries.len() - 1].0 != key);
        }
    }
}

/// An entry put once is looked up as it was put.
proof fn lemma_put_all_found(entries: Seq<(Seq<char>, nat)>, i: int)
    requires
        0 <= i < entries.len(),
        forall|a: int, b: int|
            0 <= a < b < entries.len() ==> (#[trigger] entries[a]).0 != (#[trigger] entries[b]).0,
    ensures
        ordered::lookup(put_all(entries), entries[i].0) == Some(entries[i].1 as u64),
    decreases entries.len(),
{
    let front = entries.drop_last();
    lemma_put_all(front, entries[i].0);
    ordered::law_put_is_looked_up(
        put_all(front),
        entries.last().0,
        entries.last().1 as u64,
        entries[i].0,
    );
    if i < entries.len() - 1 {
        assert forall|a: int, b: int| 0 <= a < b < front.len() implies (#[trigger] front[a]).0 != (
        #[trigger] front[b]).0 by {
            assert(front[a] == entries[a] && front[b] == entries[b]);
        }
        lemma_put_all_found(front, i);
        assert(front[i] == entries[i]);
        assert(entries[i].0 != entries[entries.len() - 1].0);
    }
}

proof fn lemma_absorb_rows(
    head: Seq<Seq<char>>,
    digest: Seq<char>,
    entries: Seq<(Seq<char>, nat)>,
)
    requires
        absorb_all(head) == Ok::<SidecarRead, Seq<char>>(
            SidecarRead { digest: Some(digest), offsets: Seq::empty() },
        ),
        forall|i: int|
            0 <= i < entries.len() ==> sidecar_key((#[trigger] entries[i]).0) && entries[i].1
                <= u64::MAX,
        forall|a: int, b: int|
            0 <= a < b < entries.len() ==> (#[trigger] entries[a]).0 != (#[trigger] entries[b]).0,
    ensures
        absorb_all(head + row_lines(entries)) == Ok::<SidecarRead, Seq<char>>(
            SidecarRead { digest: Some(digest), offsets: put_all(entries) },
        ),
    decreases entries.len(),
{
    if entries.len() == 0 {
        assert(head + row_lines(entries) == head);
    } else {
        let front = entries.drop_last();
        assert forall|i: int| 0 <= i < front.len() implies sidecar_key((#[trigger] front[i]).0)
            && front[i].1 <= u64::MAX by {
            assert(front[i] == entries[i]);
        }
        assert forall|a: int, b: int| 0 <= a < b < front.len() implies (#[trigger] front[a]).0 != (
        #[trigger] front[b]).0 by {
            assert(front[a] == entries[a] && front[b] == entries[b]);
        }
        lemma_absorb_rows(head, digest, front);
        let last = entries[entries.len() - 1];
        lemma_row(last.0, last.1);
        let all = head + row_lines(entries);
        assert(all.drop_last() == head + row_lines(front));
        assert(all.last() == assignment(last.0, number::decimal(last.1)));
        assert forall|i: int| 0 <= i < front.len() implies (#[trigger] front[i]).0 != last.0 by {
            assert(front[i] == entries[i]);
        }
        lemma_put_all(front, last.0);
    }
}

/// The lines of a sidecar before its offsets.
spec fn header_lines(object_sha256: Seq<char>) -> Seq<Seq<char>> {
    seq![
        "# Generated by `cargo xtask build-ebpf`."@,
        "# key=value byte offsets compiled into the eBPF object."@,
        assignment(OBJECT_SHA256_KEY@, object_sha256),
    ]
}

/// A comment is a line, and says nothing.
proof fn lemma_comment_line(line: Seq<char>)
    requires
        line.len() > 0,
        line[0] == '#',
        !text::white(line.last()),
        !line.contains('\n'),
    ensures
        text::chomp(line) == line,
        sidecar_line(line) is Nothing,
{
    text::lemma_trim_keeps(line);
}

/// The two comments that a sidecar starts with.
proof fn lemma_comments()
    ensures
        !"# Generated by `cargo xtask build-ebpf`."@.contains('\n'),
        text::chomp("# Generated by `cargo xtask build-ebpf`."@)
            == "# Generated by `cargo xtask build-ebpf`."@,
        sidecar_line("# Generated by `cargo xtask build-ebpf`."@) is Nothing,
        !"# key=value byte offsets compiled into the eBPF object."@.contains('\n'),
        text::chomp("# key=value byte offsets compiled into the eBPF object."@)
            == "# key=value byte offsets compiled into the eBPF object."@,
        sidecar_line("# key=value byte offsets compiled into the eBPF object."@) is Nothing,
{
    assert(!"# Generated by `cargo xtask build-ebpf`."@.contains('\n')
        && "# Generated by `cargo xtask build-ebpf`."@.len() > 0
        && "# Generated by `cargo xtask build-ebpf`."@[0] == '#'
        && "# Generated by `cargo xtask build-ebpf`."@.last() == '.') by {
        reveal_strlit("# Generated by `cargo xtask build-ebpf`.");
    }
    lemma_comment_line("# Generated by `cargo xtask build-ebpf`."@);
    assert(!"# key=value byte offsets compiled into the eBPF object."@.contains('\n')
        && "# key=value byte offsets compiled into the eBPF object."@.len() > 0
        && "# key=value byte offsets compiled into the eBPF object."@[0] == '#'
        && "# key=value byte offsets compiled into the eBPF object."@.last() == '.') by {
        reveal_strlit("# key=value byte offsets compiled into the eBPF object.");
    }
    lemma_comment_line("# key=value byte offsets compiled into the eBPF object."@);
}

/// The line of a digest gives the digest.
proof fn lemma_digest_line(object_sha256: Seq<char>)
    requires
        settled(object_sha256),
    ensures
        !assignment(OBJECT_SHA256_KEY@, object_sha256).contains('\n'),
        text::chomp(assignment(OBJECT_SHA256_KEY@, object_sha256)) == assignment(
            OBJECT_SHA256_KEY@,
            object_sha256,
        ),
        sidecar_line(assignment(OBJECT_SHA256_KEY@, object_sha256)) == SidecarLine::Digest(
            object_sha256,
        ),
{
    reveal_strlit("OBJECT_SHA256");
    let line = assignment(OBJECT_SHA256_KEY@, object_sha256);
    assert forall|i: int| 0 <= i < line.len() implies #[trigger] line[i] != '\n' by {
        if i > OBJECT_SHA256_KEY@.len() {
            assert(object_sha256.contains(object_sha256[i - OBJECT_SHA256_KEY@.len() - 1]));
        }
    }
    text::lemma_trim_keeps(object_sha256);
    text::lemma_trim_keeps(line);
    text::lemma_trim_keeps(OBJECT_SHA256_KEY@);
    text::lemma_split_at(OBJECT_SHA256_KEY@, '=', object_sha256);
}

/// The lines of a rendered sidecar.
proof fn lemma_sidecar_lines(object_sha256: Seq<char>, entries: Seq<(Seq<char>, nat)>)
    requires
        settled(object_sha256),
        forall|i: int|
            0 <= i < entries.len() ==> sidecar_key((#[trigger] entries[i]).0) && entries[i].1
                <= u64::MAX,
    ensures
        text::lines(sidecar_text(object_sha256, entries)) == header_lines(object_sha256)
            + row_lines(entries),
{
    lemma_comments();
    lemma_digest_line(object_sha256);
    lemma_row_lines(entries);
    let first = "# Generated by `cargo xtask build-ebpf`."@;
    let second = "# key=value byte offsets compiled into the eBPF object."@;
    let third = assignment(OBJECT_SHA256_KEY@, object_sha256);
    let rows = offset_rows(entries);
    text::lemma_lines_front(first, ended(second) + (ended(third) + rows));
    text::lemma_lines_front(second, ended(third) + rows);
    text::lemma_lines_front(third, rows);
}

/// What the lines before the offsets say.
proof fn lemma_absorb_header(object_sha256: Seq<char>)
    requires
        settled(object_sha256),
    ensures
        absorb_all(header_lines(object_sha256)) == Ok::<SidecarRead, Seq<char>>(
            SidecarRead { digest: Some(object_sha256), offsets: Seq::empty() },
        ),
{
    lemma_comments();
    lemma_digest_line(object_sha256);
    let head = header_lines(object_sha256);
    let none = Seq::<Seq<char>>::empty();
    assert(head.take(1).drop_last() == none && head.take(1).last() == head[0]);
    assert(absorb_all(none) == Ok::<SidecarRead, Seq<char>>(
        SidecarRead { digest: None, offsets: Seq::empty() },
    ));
    assert(absorb_all(head.take(1)) == absorb_all(none));
    assert(head.take(2).drop_last() == head.take(1) && head.take(2).last() == head[1]);
    assert(absorb_all(head.take(2)) == absorb_all(none));
    assert(head.drop_last() == head.take(2));
}

/// A sidecar that was rendered is read back: the same digest, each key's offset,
/// and no other key. It holds of every digest that is settled, and of keys that
/// differ from each other and are such as a sidecar can hold.
pub proof fn law_sidecar_is_read_back(object_sha256: Seq<char>, entries: Seq<(Seq<char>, nat)>)
    requires
        settled(object_sha256),
        forall|i: int|
            0 <= i < entries.len() ==> sidecar_key((#[trigger] entries[i]).0) && entries[i].1
                <= u64::MAX,
        forall|a: int, b: int|
            0 <= a < b < entries.len() ==> (#[trigger] entries[a]).0 != (#[trigger] entries[b]).0,
    ensures
        absorb_all(text::lines(sidecar_text(object_sha256, entries))) == Ok::<
            SidecarRead,
            Seq<char>,
        >(SidecarRead { digest: Some(object_sha256), offsets: put_all(entries) }),
        forall|i: int|
            0 <= i < entries.len() ==> ordered::lookup(
                put_all(entries),
                (#[trigger] entries[i]).0,
            ) == Some(entries[i].1 as u64),
        forall|key: Seq<char>|
            (forall|i: int| 0 <= i < entries.len() ==> (#[trigger] entries[i]).0 != key)
                ==> #[trigger] ordered::lookup(put_all(entries), key) is None,
{
    lemma_sidecar_lines(object_sha256, entries);
    lemma_absorb_header(object_sha256);
    let head = header_lines(object_sha256);
    lemma_absorb_rows(head, object_sha256, entries);
    assert forall|i: int| 0 <= i < entries.len() implies ordered::lookup(
        put_all(entries),
        (#[trigger] entries[i]).0,
    ) == Some(entries[i].1 as u64) by {
        lemma_put_all_found(entries, i);
    }
    assert forall|key: Seq<char>|
        (forall|i: int| 0 <= i < entries.len() ==> (#[trigger] entries[i]).0 != key) implies (
    #[trigger] ordered::lookup(put_all(entries), key)) is None by {
        lemma_put_all(entries, key);
    }
}

/// The digits of a digest can stand on a line.
proof fn lemma_hex_settled(bytes: Seq<u8>)
    ensures
        settled(number::hex(bytes)),
        forall|i: int|
            0 <= i < number::hex(bytes).len() ==> !text::white(#[trigger] number::hex(bytes)[i]),
    decreases bytes.len(),
{
    let h = number::hex(bytes);
    if bytes.len() > 0 {
        lemma_hex_settled(bytes.drop_last());
        let front = number::hex(bytes.drop_last());
        assert forall|i: int| 0 <= i < h.len() implies !text::white(#[trigger] h[i]) by {
            if i < front.len() {
                assert(h[i] == front[i]);
            }
        }
    }
    text::lemma_trim_keeps(h);
    assert forall|i: int| 0 <= i < h.len() implies #[trigger] h[i] != '\n' by {
        assert(!text::white(h[i]));
    }
}

/// A text of capitals and underscores is a key.
proof fn lemma_capitals(key: Seq<char>)
    requires
        key.len() > 0,
        forall|i: int| 0 <= i < key.len() ==> 'A' <= #[trigger] key[i] <= '_',
        key != OBJECT_SHA256_KEY@,
    ensures
        sidecar_key(key),
{
    assert('A' <= key[0] <= '_');
    assert('A' <= key[key.len() - 1] <= '_');
    text::lemma_trim_keeps(key);
}

/// The keys of the definitions are such as a sidecar can hold, and differ.
proof fn lemma_defined_keys()
    ensures
        forall|i: int|
            0 <= i < defined().len() ==> sidecar_key((#[trigger] defined()[i]).manifest_key),
        forall|a: int, b: int|
            0 <= a < b < defined().len() ==> (#[trigger] defined()[a]).manifest_key != (
            #[trigger] defined()[b]).manifest_key,
{
    reveal_strlit("OBJECT_SHA256");
    reveal_strlit("TASK_CGROUPS_OFFSET");
    reveal_strlit("CSS_SET_DFL_CGRP_OFFSET");
    reveal_strlit("CGROUP_KN_OFFSET");
    reveal_strlit("KERNFS_NODE_ID_OFFSET");
    reveal_strlit("FILE_F_INODE_OFFSET");
    reveal_strlit("INODE_I_INO_OFFSET");
    reveal_strlit("BPRM_FILE_OFFSET");
    assert("OBJECT_SHA256"@[0] == 'O' && "TASK_CGROUPS_OFFSET"@[0] == 'T'
        && "CSS_SET_DFL_CGRP_OFFSET"@[0] == 'C' && "CGROUP_KN_OFFSET"@[0] == 'C'
        && "KERNFS_NODE_ID_OFFSET"@[0] == 'K' && "FILE_F_INODE_OFFSET"@[0] == 'F'
        && "INODE_I_INO_OFFSET"@[0] == 'I' && "BPRM_FILE_OFFSET"@[0] == 'B');
    assert("CSS_SET_DFL_CGRP_OFFSET"@.len() != "CGROUP_KN_OFFSET"@.len());
    lemma_capitals("TASK_CGROUPS_OFFSET"@);
    lemma_capitals("CSS_SET_DFL_CGRP_OFFSET"@);
    lemma_capitals("CGROUP_KN_OFFSET"@);
    lemma_capitals("KERNFS_NODE_ID_OFFSET"@);
    lemma_capitals("FILE_F_INODE_OFFSET"@);
    lemma_capitals("INODE_I_INO_OFFSET"@);
    lemma_capitals("BPRM_FILE_OFFSET"@);
}

/// The offsets that are resolved for a kernel and rendered beside an object are read
/// back from the sidecar: the object's digest, and the same offsets under the same
/// keys as are resolved by their keys.
pub proof fn law_resolved_offsets_are_read_back<F: Fn(&str, &str) -> Result<usize, String>>(
    lookup: F,
    found: Seq<ResolvedOffset>,
    digest: Seq<u8>,
)
    requires
        resolves_all(lookup, found),
    ensures
        absorb_all(text::lines(sidecar_text(number::hex(digest), entries(found)))) == Ok::<
            SidecarRead,
            Seq<char>,
        >(SidecarRead { digest: Some(number::hex(digest)), offsets: put_all(entries(found)) }),
{
    let all = entries(found);
    lemma_hex_settled(digest);
    lemma_defined_keys();
    assert forall|i: int| 0 <= i < all.len() implies sidecar_key((#[trigger] all[i]).0) && all[i].1
        <= u64::MAX by {
        assert(resolves(lookup, defined()[i], found[i]));
    }
    assert forall|a: int, b: int| 0 <= a < b < all.len() implies (#[trigger] all[a]).0 != (
    #[trigger] all[b]).0 by {
        assert(resolves(lookup, defined()[a], found[a]));
        assert(resolves(lookup, defined()[b], found[b]));
    }
    law_sidecar_is_read_back(number::hex(digest), all);
}

/// Whether an offset that was found under this constant and this key is what
/// `lookup` gives for this field of this struct, and there is such an offset.
pub open spec fn stands_under<F: Fn(&str, &str) -> Result<usize, String>>(
    lookup: F,
    found: Seq<ResolvedOffset>,
    rust_const: Seq<char>,
    key: Seq<char>,
    struct_name: Seq<char>,
    field_name: Seq<char>,
) -> bool {
    &&& exists|i: int| 0 <= i < found.len() && (#[trigger] found[i]).manifest_key@ == key
    &&& forall|i: int|
        0 <= i < found.len() && (#[trigger] found[i]).manifest_key@ == key ==> found[i].rust_const@
            == rust_const && answers(lookup, struct_name, field_name, Ok(found[i].offset))
}

/// Whether what a map holds under this key is what `lookup` gives for this field of
/// this struct.
pub open spec fn map_holds<F: Fn(&str, &str) -> Result<usize, String>>(
    lookup: F,
    map: Seq<(Seq<char>, u64)>,
    key: Seq<char>,
    struct_name: Seq<char>,
    field_name: Seq<char>,
) -> bool {
    exists|offset: usize| #[trigger]
        answers(lookup, struct_name, field_name, Ok(offset)) && ordered::lookup(map, key) == Some(
            offset as u64,
        )
}

/// A field that goes by one name is found under that name.
proof fn lemma_single_found<F: Fn(&str, &str) -> Result<usize, String>>(
    lookup: F,
    struct_name: Seq<char>,
    field_name: Seq<char>,
    offset: usize,
)
    requires
        finds(lookup, struct_name, seq![field_name], offset),
    ensures
        answers(lookup, struct_name, field_name, Ok(offset)),
{
    let fields = seq![field_name];
    let k = choose|k: int|
        #![trigger fields[k]]
        0 <= k < fields.len() && answers(lookup, struct_name, fields[k], Ok(offset)) && (forall|
            j: int,
        |
            0 <= j < k ==> can_miss(lookup, struct_name, #[trigger] fields[j]));
    assert(k == 0);
}

/// Each offset stands under the key and the constant that are named after its struct
/// and field, and the key is the constant's name and `_OFFSET`. The file of a binary
/// is looked for as `file`, and as `executable` only where there is no `file`.
pub proof fn law_offsets_stand_under_their_keys<F: Fn(&str, &str) -> Result<usize, String>>(
    lookup: F,
    found: Seq<ResolvedOffset>,
)
    requires
        resolves_all(lookup, found),
    ensures
        found.len() == 7,
        forall|i: int|
            0 <= i < found.len() ==> (#[trigger] found[i]).manifest_key@ == found[i].rust_const@
                + "_OFFSET"@,
        stands_under(lookup, found, "TASK_CGROUPS"@, "TASK_CGROUPS_OFFSET"@, "task_struct"@, "cgroups"@),
        stands_under(lookup, found, "CSS_SET_DFL_CGRP"@, "CSS_SET_DFL_CGRP_OFFSET"@, "css_set"@, "dfl_cgrp"@),
        stands_under(lookup, found, "CGROUP_KN"@, "CGROUP_KN_OFFSET"@, "cgroup"@, "kn"@),
        stands_under(lookup, found, "KERNFS_NODE_ID"@, "KERNFS_NODE_ID_OFFSET"@, "kernfs_node"@, "id"@),
        stands_under(lookup, found, "FILE_F_INODE"@, "FILE_F_INODE_OFFSET"@, "file"@, "f_inode"@),
        stands_under(lookup, found, "INODE_I_INO"@, "INODE_I_INO_OFFSET"@, "inode"@, "i_ino"@),
        stands_under(lookup, found, "BPRM_FILE"@, "BPRM_FILE_OFFSET"@, "linux_binprm"@, "file"@)
            || (stands_under(
            lookup,
            found,
            "BPRM_FILE"@,
            "BPRM_FILE_OFFSET"@,
            "linux_binprm"@,
            "executable"@,
        ) && can_miss(lookup, "linux_binprm"@, "file"@)),
{
    lemma_defined_keys();
    reveal_strlit("_OFFSET");
    reveal_strlit("TASK_CGROUPS");
    reveal_strlit("TASK_CGROUPS_OFFSET");
    reveal_strlit("CSS_SET_DFL_CGRP");
    reveal_strlit("CSS_SET_DFL_CGRP_OFFSET");
    reveal_strlit("CGROUP_KN");
    reveal_strlit("CGROUP_KN_OFFSET");
    reveal_strlit("KERNFS_NODE_ID");
    reveal_strlit("KERNFS_NODE_ID_OFFSET");
    reveal_strlit("FILE_F_INODE");
    reveal_strlit("FILE_F_INODE_OFFSET");
    reveal_strlit("INODE_I_INO");
    reveal_strlit("INODE_I_INO_OFFSET");
    reveal_strlit("BPRM_FILE");
    reveal_strlit("BPRM_FILE_OFFSET");
    assert("TASK_CGROUPS"@ + "_OFFSET"@ == "TASK_CGROUPS_OFFSET"@);
    assert("CSS_SET_DFL_CGRP"@ + "_OFFSET"@ == "CSS_SET_DFL_CGRP_OFFSET"@);
    assert("CGROUP_KN"@ + "_OFFSET"@ == "CGROUP_KN_OFFSET"@);
    assert("KERNFS_NODE_ID"@ + "_OFFSET"@ == "KERNFS_NODE_ID_OFFSET"@);
    assert("FILE_F_INODE"@ + "_OFFSET"@ == "FILE_F_INODE_OFFSET"@);
    assert("INODE_I_INO"@ + "_OFFSET"@ == "INODE_I_INO_OFFSET"@);
    assert("BPRM_FILE"@ + "_OFFSET"@ == "BPRM_FILE_OFFSET"@);
    assert(resolves(lookup, defined()[0], found[0]));
    lemma_single_found(lookup, "task_struct"@, "cgroups"@, found[0].offset);
    assert(resolves(lookup, defined()[1], found[1]));
    lemma_single_found(lookup, "css_set"@, "dfl_cgrp"@, found[1].offset);
    assert(resolves(lookup, defined()[2], found[2]));
    lemma_single_found(lookup, "cgroup"@, "kn"@, found[2].offset);
    assert(resolves(lookup, defined()[3], found[3]));
    lemma_single_found(lookup, "kernfs_node"@, "id"@, found[3].offset);
    assert(resolves(lookup, defined()[4], found[4]));
    lemma_single_found(lookup, "file"@, "f_inode"@, found[4].offset);
    assert(resolves(lookup, defined()[5], found[5]));
    lemma_single_found(lookup, "inode"@, "i_ino"@, found[5].offset);
    assert(resolves(lookup, defined()[6], found[6]));
    let fields = seq!["file"@, "executable"@];
    let k = choose|k: int|
        #![trigger fields[k]]
        0 <= k < fields.len() && answers(
            lookup,
            "linux_binprm"@,
            fields[k],
            Ok(found[6].offset),
        ) && (forall|j: int|
            0 <= j < k ==> can_miss(lookup, "linux_binprm"@, #[trigger] fields[j]));
    assert(fields[0] == "file"@ && fields[1] == "executable"@);
    assert forall|i: int| 0 <= i < found.len() implies (#[trigger] found[i]).manifest_key@
        == defined()[i].manifest_key && found[i].rust_const@ == defined()[i].rust_const by {
        assert(resolves(lookup, defined()[i], found[i]));
    }
    assert forall|a: int, b: int|
        0 <= a < found.len() && 0 <= b < found.len() && (#[trigger] found[a]).manifest_key@ == (
        #[trigger] found[b]).manifest_key@ implies a == b by {
        assert(defined()[a].manifest_key == defined()[b].manifest_key);
        if a < b {
            assert(defined()[a].manifest_key != defined()[b].manifest_key);
        } else if b < a {
            assert(defined()[b].manifest_key != defined()[a].manifest_key);
        }
    }
}

/// The offsets by their keys are those of the structs and fields that the keys are
/// named after.
pub proof fn law_offsets_are_kept_by_key<F: Fn(&str, &str) -> Result<usize, String>>(
    lookup: F,
    found: Seq<ResolvedOffset>,
)
    requires
        resolves_all(lookup, found),
    ensures
        map_holds(lookup, put_all(entries(found)), "TASK_CGROUPS_OFFSET"@, "task_struct"@, "cgroups"@),
        map_holds(lookup, put_all(entries(found)), "CSS_SET_DFL_CGRP_OFFSET"@, "css_set"@, "dfl_cgrp"@),
        map_holds(lookup, put_all(entries(found)), "CGROUP_KN_OFFSET"@, "cgroup"@, "kn"@),
        map_holds(lookup, put_all(entries(found)), "KERNFS_NODE_ID_OFFSET"@, "kernfs_node"@, "id"@),
        map_holds(lookup, put_all(entries(found)), "FILE_F_INODE_OFFSET"@, "file"@, "f_inode"@),
        map_holds(lookup, put_all(entries(found)), "INODE_I_INO_OFFSET"@, "inode"@, "i_ino"@),
        map_holds(
            lookup,
            put_all(entries(found)),
            "BPRM_FILE_OFFSET"@,
            "linux_binprm"@,
            "file"@,
        ) || (map_holds(
            lookup,
            put_all(entries(found)),
            "BPRM_FILE_OFFSET"@,
            "linux_binprm"@,
            "executable"@,
        ) && can_miss(lookup, "linux_binprm"@, "file"@)),
        forall|key: Seq<char>|
            #![trigger ordered::lookup(put_all(entries(found)), key)]
            ordered::lookup(put_all(entries(found)), key) is Some ==> exists|i: int|
                0 <= i < found.len() && (#[trigger] found[i]).manifest_key@ == key,
{
    law_offsets_stand_under_their_keys(lookup, found);
    lemma_defined_keys();
    let all = entries(found);
    assert forall|a: int, b: int| 0 <= a < b < all.len() implies (#[trigger] all[a]).0 != (
    #[trigger] all[b]).0 by {
        assert(resolves(lookup, defined()[a], found[a]));
        assert(resolves(lookup, defined()[b], found[b]));
    }
    assert forall|i: int| 0 <= i < found.len() implies #[trigger] found[i].manifest_key@
        == defined()[i].manifest_key by {
        assert(resolves(lookup, defined()[i], found[i]));
    }
    assert(all[0] == (found[0].manifest_key@, found[0].offset as nat));
    lemma_put_all_found(all, 0);
    assert(all[1] == (found[1].manifest_key@, found[1].offset as nat));
    lemma_put_all_found(all, 1);
    assert(all[2] == (found[2].manifest_key@, found[2].offset as nat));
    lemma_put_all_found(all, 2);
    assert(all[3] == (found[3].manifest_key@, found[3].offset as nat));
    lemma_put_all_found(all, 3);
    assert(all[4] == (found[4].manifest_key@, found[4].offset as nat));
    lemma_put_all_found(all, 4);
    assert(all[5] == (found[5].manifest_key@, found[5].offset as nat));
    lemma_put_all_found(all, 5);
    assert(all[6] == (found[6].manifest_key@, found[6].offset as nat));
    lemma_put_all_found(all, 6);
    assert(found[0].manifest_key@ == "TASK_CGROUPS_OFFSET"@ && answers(
        lookup,
        "task_struct"@,
        "cgroups"@,
        Ok(found[0].offset),
    ));
    assert(found[1].manifest_key@ == "CSS_SET_DFL_CGRP_OFFSET"@ && answers(
        lookup,
        "css_set"@,
        "dfl_cgrp"@,
        Ok(found[1].offset),
    ));
    assert(found[2].manifest_key@ == "CGROUP_KN_OFFSET"@ && answers(
        lookup,
        "cgroup"@,
        "kn"@,
        Ok(found[2].offset),
    ));
    assert(found[3].manifest_key@ == "KERNFS_NODE_ID_OFFSET"@ && answers(
        lookup,
        "kernfs_node"@,
        "id"@,
        Ok(found[3].offset),
    ));
    assert(found[4].manifest_key@ == "FILE_F_INODE_OFFSET"@ && answers(
        lookup,
        "file"@,
        "f_inode"@,
        Ok(found[4].offset),
    ));
    assert(found[5].manifest_key@ == "INODE_I_INO_OFFSET"@ && answers(
        lookup,
        "inode"@,
        "i_ino"@,
        Ok(found[5].offset),
    ));
    assert(found[6].manifest_key@ == "BPRM_FILE_OFFSET"@);
    assert forall|key: Seq<char>| #[trigger]
        ordered::lookup(put_all(all), key) is Some implies exists|i: int|
        0 <= i < found.len() && (#[trigger] found[i]).manifest_key@ == key by {
        lemma_put_all(all, key);
        if forall|i: int| 0 <= i < found.len() ==> (#[trigger] found[i]).manifest_key@ != key {
            assert forall|i: int| 0 <= i < all.len() implies (#[trigger] all[i]).0 != key by {
                assert(found[i].manifest_key@ != key);
            }
        }
    }
}

/// The offset of a field is what the first line that gives one says of it.
pub proof fn law_first_line_gives_the_offset(lines: Seq<Seq<char>>, field: Seq<char>, k: int)
    requires
        0 <= k < lines.len(),
        line_offset(lines[k], field) is Some,
        forall|j: int| 0 <= j < k ==> line_offset(#[trigger] lines[j], field) is None,
    ensures
        listed_offset(lines, field) == line_offset(lines[k], field),
    decreases k,
{
    if k > 0 {
        let rest = lines.skip(1);
        assert(line_offset(lines[0], field) is None);
        assert forall|j: int| 0 <= j < k - 1 implies line_offset(#[trigger] rest[j], field)
            is None by {
            assert(line_offset(lines[j + 1], field) is None);
        }
        law_first_line_gives_the_offset(rest, field, k - 1);
    }
}

/// A listing none of whose lines gives a field's offset gives none.
pub proof fn law_unlisted_field_has_no_offset(lines: Seq<Seq<char>>, field: Seq<char>)
    requires
        forall|j: int| 0 <= j < lines.len() ==> line_offset(#[trigger] lines[j], field) is None,
    ensures
        listed_offset(lines, field) is None,
    decreases lines.len(),
{
    if lines.len() > 0 {
        let rest = lines.skip(1);
        assert(line_offset(lines[0], field) is None);
        assert forall|j: int| 0 <= j < rest.len() implies line_offset(#[trigger] rest[j], field)
            is None by {
            assert(line_offset(lines[j + 1], field) is None);
        }
        law_unlisted_field_has_no_offset(rest, field);
    }
}

/// A line gives an offset only to the field that it declares: to no two fields of different
/// names.
pub proof fn law_line_declares_one_field(line: Seq<char>, field: Seq<char>, other: Seq<char>)
    requires
        line_offset(line, field) is Some,
        line_offset(line, other) is Some,
    ensures
        field == other,
        line_offset(line, field) == line_offset(line, other),
{
}

/// Reading more lines after those that were read keeps what was read of them.
proof fn lemma_absorb_keeps(lines: Seq<Seq<char>>, n: int, read: SidecarRead, key: Seq<char>)
    requires
        0 <= n <= lines.len(),
        absorb_all(lines) == Ok::<SidecarRead, Seq<char>>(read),
    ensures
        absorb_all(lines.take(n)) matches Ok(was) && {
            &&& was.digest is Some ==> read.digest is Some
            &&& ordered::lookup(was.offsets, key) is Some ==> ordered::lookup(read.offsets, key)
                is Some
        },
    decreases lines.len(),
{
    if n == lines.len() {
        assert(lines.take(n) == lines);
    } else {
        let front = lines.drop_last();
        match absorb_all(front) {
            Ok(was) => {
                lemma_absorb_keeps(front, n, was, key);
                assert(front.take(n) == lines.take(n));
                if let SidecarLine::Offset(k, v) = sidecar_line(lines.last()) {
                    lemma_absorb_rises(front);
                    ordered::law_put_is_looked_up(was.offsets, k, v, key);
                }
            },
            Err(_) => {},
        }
    }
}

/// What has been read is in the order of its keys.
proof fn lemma_absorb_rises(lines: Seq<Seq<char>>)
    ensures
        absorb_all(lines) matches Ok(read) ==> ordered::rising(read.offsets),
    decreases lines.len(),
{
    if lines.len() > 0 {
        lemma_absorb_rises(lines.drop_last());
        if let Ok(was) = absorb_all(lines.drop_last()) {
            if let SidecarLine::Offset(k, v) = sidecar_line(lines.last()) {
                ordered::law_put_keeps_order(was.offsets, k, v);
            }
        }
    }
}

/// A sidecar says nothing twice: where two lines give a digest, or two lines give an offset under
/// one key, it is not read.
pub proof fn law_sidecar_is_unambiguous(lines: Seq<Seq<char>>, i: int, j: int)
    requires
        0 <= i < j < lines.len(),
        (sidecar_line(lines[i]) is Digest && sidecar_line(lines[j]) is Digest) || (sidecar_line(
            lines[i],
        ) matches SidecarLine::Offset(a, _) && (sidecar_line(lines[j]) matches SidecarLine::Offset(
            b,
            _,
        ) && a == b)),
    ensures
        absorb_all(lines) is Err,
{
    if let Ok(read) = absorb_all(lines) {
        let key = match sidecar_line(lines[i]) {
            SidecarLine::Offset(a, _) => a,
            _ => Seq::empty(),
        };
        let upto = lines.take(j);
        lemma_absorb_keeps(lines, j + 1, read, key);
        assert(lines.take(j + 1).drop_last() == upto);
        assert(lines.take(j + 1).last() == lines[j]);
        lemma_absorb_keeps(lines, j, read, key);
        if let Ok(was) = absorb_all(upto) {
            lemma_absorb_keeps(upto, i + 1, was, key);
            assert(upto.take(i + 1).drop_last() == lines.take(i));
            assert(upto.take(i + 1).last() == lines[i]);
            lemma_absorb_keeps(upto, i, was, key);
            assert(upto.take(i) == lines.take(i));
            lemma_absorb_rises(lines.take(i));
            if let Ok(first) = absorb_all(lines.take(i)) {
                if let SidecarLine::Offset(k, v) = sidecar_line(lines[i]) {
                    ordered::law_put_is_looked_up(first.offsets, k, v, key);
                }
            }
        }
    }
}

/// A line that is blank or a comment says nothing, one without an equals sign is told by its
/// number, one whose value is no offset by its key, and a key or a digest that comes again is
/// refused by name.
pub proof fn law_lines_are_refused_by_what_they_are(
    read: SidecarRead,
    number: nat,
    line: Seq<char>,
)
    ensures
        sidecar_line(line) is Nothing <==> text::trim(line).len() == 0 || text::trim(line)[0] == '#',
        sidecar_line(line) is Nothing ==> absorb(read, number, line) == Ok::<
            SidecarRead,
            Seq<char>,
        >(read),
        sidecar_line(line) is Malformed ==> absorb(read, number, line) == Err::<
            SidecarRead,
            Seq<char>,
        >("invalid offsets sidecar line "@ + number::decimal(number)),
        sidecar_line(line) is Malformed ==> !text::trim(line).contains('='),
        sidecar_line(line) is Digest && read.digest is Some ==> absorb(read, number, line)
            == Err::<SidecarRead, Seq<char>>(
            "duplicate "@ + "OBJECT_SHA256"@ + " in offsets sidecar"@,
        ),
        sidecar_line(line) matches SidecarLine::Offset(key, _) ==> (ordered::lookup(
            read.offsets,
            key,
        ) is Some ==> absorb(read, number, line) == Err::<SidecarRead, Seq<char>>(
            "duplicate offset key "@ + key + " in offsets sidecar"@,
        )),
        sidecar_line(line) matches SidecarLine::Unreadable(key, e) ==> absorb(read, number, line)
            == Err::<SidecarRead, Seq<char>>(
            "invalid offset value for "@ + key + ": "@ + e.text(),
        ),
        missing_digest() == "missing "@ + "OBJECT_SHA256"@ + " in offsets sidecar"@,
{
}

/// Why a run of `pahole` gives no offset: it was not started, it failed for the struct, or it
/// listed the struct without the field; each is told with its own words, and only a run that
/// ended well gives an offset.
pub proof fn law_runs_fail_for_their_own_reasons(
    pahole: Seq<char>,
    struct_name: Seq<char>,
    field_name: Seq<char>,
    run: PaholeRun,
)
    ensures
        run matches PaholeRun::NotStarted(reason) ==> run_offset(
            pahole,
            struct_name,
            field_name,
            run,
        ) == Err::<nat, Seq<char>>("failed to run "@ + pahole + ": "@ + reason@),
        run matches PaholeRun::Failed(stderr) ==> run_offset(pahole, struct_name, field_name, run)
            == Err::<nat, Seq<char>>(
            "pahole failed for "@ + struct_name + ": "@ + text::trim(utf8_lossy(stderr@)),
        ),
        run matches PaholeRun::Finished(_) ==> (run_offset(
            pahole,
            struct_name,
            field_name,
            run,
        ) matches Err(e) ==> e == "field '"@ + field_name + "' not found in pahole output"@),
        run_offset(pahole, struct_name, field_name, run) is Ok ==> run is Finished,
        pahole_missing() == "pahole not found; install dwarves or put pahole on PATH"@,
{
}

/// `pahole` is looked for where packages put it, then where an administrator does, and then in
/// each directory of the search path, from the first to the last.
pub proof fn law_pahole_is_looked_for_in_order(path: Seq<char>, first: Seq<char>, rest: Seq<char>)
    requires
        !first.contains(':'),
        path == first + seq![':'] + rest,
    ensures
        pahole_places(None) == seq!["/usr/bin/pahole"@, "/usr/local/bin/pahole"@],
        pahole_places(Some(first)) == pahole_places(None).push(paths::join(first, "pahole"@)),
        path_dirs(path) == seq![first] + path_dirs(rest),
        pahole_places(Some(path))[0] == "/usr/bin/pahole"@,
        pahole_places(Some(path))[1] == "/usr/local/bin/pahole"@,
        pahole_places(Some(path))[2] == paths::join(first, "pahole"@),
{
    assert(path == first.push(':') + rest);
    text::lemma_split_at(first, ':', rest);
    assert(path[first.len() as int] == ':');
    assert(path.contains(':'));
    assert(pahole_places(None) =~= seq!["/usr/bin/pahole"@, "/usr/local/bin/pahole"@]);
    assert(path_dirs(first) == seq![first]);
    assert(pahole_places(Some(first)) =~= pahole_places(None).push(paths::join(first, "pahole"@)));
    let dirs = path_dirs(path);
    assert(dirs[0] == first);
    let places = dirs.map_values(|dir: Seq<char>| paths::join(dir, "pahole"@));
    assert(places[0] == paths::join(first, "pahole"@));
}

/// What is said where none of a struct's fields is found names the fields that were tried, in
/// their order, and the struct.
pub proof fn law_fields_that_were_tried_are_named(
    struct_name: Seq<char>,
    first: Seq<char>,
    second: Seq<char>,
    def: OffsetDef,
)
    ensures
        none_found(struct_name, seq![first]) == "none of fields ["@ + first
            + "] found in pahole output for '"@ + struct_name + "'"@,
        none_found(struct_name, seq![first, second]) == "none of fields ["@ + (first + ", "@
            + second) + "] found in pahole output for '"@ + struct_name + "'"@,
        def@.struct_name == def.struct_name@,
        def@.rust_const == def.rust_const@,
        def@.manifest_key == def.manifest_key@,
        def@.field_names.len() == def.field_names@.len(),
{
    assert(seq![first, second].drop_last() == seq![first]);
    assert(text::joined(seq![first], ", "@) == first);
    assert(text::joined(seq![first, second], ", "@) == first + ", "@ + second);
}

/// The text of a sidecar has the digest on its third line, under the digest's key, and behind it a
/// line for each offset, with the offset behind the offset's key.
pub proof fn law_sidecar_has_a_line_for_each_offset(
    object_sha256: Seq<char>,
    entries: Seq<(Seq<char>, nat)>,
    i: int,
)
    requires
        settled(object_sha256),
        forall|k: int|
            0 <= k < entries.len() ==> sidecar_key((#[trigger] entries[k]).0) && entries[k].1
                <= u64::MAX,
        0 <= i < entries.len(),
    ensures
        text::lines(sidecar_text(object_sha256, entries)).len() == 3 + entries.len(),
        text::lines(sidecar_text(object_sha256, entries))[0]
            == "# Generated by `cargo xtask build-ebpf`."@,
        text::lines(sidecar_text(object_sha256, entries))[1]
            == "# key=value byte offsets compiled into the eBPF object."@,
        text::lines(sidecar_text(object_sha256, entries))[2] == "OBJECT_SHA256"@.push('=')
            + object_sha256,
        text::lines(sidecar_text(object_sha256, entries))[3 + i] == entries[i].0.push('=')
            + number::decimal(entries[i].1),
{
    lemma_sidecar_lines(object_sha256, entries);
}

/// An offset's entry has the offset under the offset's own key.
pub proof fn law_entries_are_the_offsets(offsets: Seq<ResolvedOffset>, i: int)
    requires
        0 <= i < offsets.len(),
    ensures
        entries(offsets).len() == offsets.len(),
        entries(offsets)[i].0 == offsets[i].manifest_key@,
        entries(offsets)[i].1 == offsets[i].offset,
{
}

/// What stands in the comment of a line of a listing: the offset and the size.
pub open spec fn comment_text(offset: nat, size: nat) -> Seq<char> {
    seq![' '] + number::decimal(offset) + seq![' '] + number::decimal(size) + seq![' ']
}

/// A line of a listing: the type, the field as it is declared, and a comment with the field's
/// offset and size.
pub open spec fn listing_line(front: Seq<char>, word: Seq<char>, offset: nat, size: nat) -> Seq<
    char,
> {
    (front + word + seq![';', ' ']) + seq!['/', '*'] + comment_text(offset, size) + seq!['*', '/']
}

/// Whether a word declares a field of this name: the name behind stars, and before a colon and the
/// width where the field has only some bits.
pub open spec fn declares(word: Seq<char>, stars: Seq<char>, name: Seq<char>, bits: Seq<char>) -> bool {
    &&& word == stars + name + bits
    &&& forall|i: int| 0 <= i < stars.len() ==> #[trigger] stars[i] == '*'
    &&& name.len() > 0
    &&& name[0] != '*'
    &&& !name.contains(':')
    &&& bits.len() > 0 ==> bits[0] == ':'
    &&& forall|i: int| 0 <= i < word.len() ==> !text::white(#[trigger] word[i]) && word[i] != ';'
}

/// The name in a word that declares it.
proof fn lemma_declared_name(
    word: Seq<char>,
    stars: Seq<char>,
    name: Seq<char>,
    bits: Seq<char>,
)
    requires
        declares(word, stars, name, bits),
    ensures
        text::before(text::strip_lead(word, '*'), ':') == name,
{
    let n = stars.len();
    assert forall|i: int| 0 <= i < n implies text::just('*')(#[trigger] word[i]) by {
        assert(word[i] == stars[i]);
    }
    assert(word[n as int] == name[0]);
    text::lemma_run(word, text::just('*'), n);
    let rest = word.skip(n as int);
    assert(rest == name + bits);
    assert forall|i: int| 0 <= i < name.len() implies text::other_than(':')(
        #[trigger] rest[i],
    ) by {
        assert(name.contains(name[i]));
    }
    if bits.len() > 0 {
        assert(rest[name.len() as int] == ':');
    }
    text::lemma_run(rest, text::other_than(':'), name.len());
    assert(rest.take(name.len() as int) == name);
}

/// The word that a declaration ends with.
proof fn lemma_declared_word(front: Seq<char>, word: Seq<char>)
    requires
        front.len() > 0 ==> text::white(front.last()) && !text::white(front[0]),
        !front.contains(';'),
        word.len() > 0,
        forall|i: int| 0 <= i < word.len() ==> !text::white(#[trigger] word[i]) && word[i] != ';',
    ensures
        text::last_word(
            text::before(text::trim(front + word + seq![';', ' ']), ';'),
        ) == word,
{
    let x = front + word + seq![';', ' '];
    let full = front + word;
    assert(!text::white(x[0])) by {
        if front.len() > 0 {
            assert(x[0] == front[0]);
        } else {
            assert(x[0] == word[0]);
        }
    }
    text::lemma_run(x, text::whites(), 0);
    assert(text::trim_start(x) == x);
    assert(x[x.len() - 1] == ' ' && x[x.len() - 2] == ';');
    text::lemma_run_back(x, text::whites(), 1);
    let t = text::trim(x);
    assert(t == full.push(';') + Seq::<char>::empty());
    assert(!full.contains(';')) by {
        assert forall|i: int| 0 <= i < full.len() implies #[trigger] full[i] != ';' by {
            if i < front.len() {
                assert(front.contains(front[i]));
            } else {
                assert(word[i - front.len()] != ';');
            }
        }
    }
    text::lemma_split_at(full, ';', Seq::empty());
    assert(!text::white(full.last())) by {
        assert(full.last() == word[word.len() - 1]);
    }
    text::lemma_run_back(full, text::whites(), 0);
    assert(text::trim_end(full) == full);
    assert forall|i: int| full.len() - word.len() <= i < full.len() implies text::inks()(
        #[trigger] full[i],
    ) by {
        assert(full[i] == word[i - front.len()]);
    }
    if front.len() > 0 {
        assert(full[full.len() - word.len() - 1] == front.last());
    }
    text::lemma_run_back(full, text::inks(), word.len());
    assert(full.skip(full.len() - word.len()) == word);
}

/// The first number of a comment.
proof fn lemma_comment_number(offset: nat, size: nat)
    ensures
        text::first_word(
            text::trim(comment_text(offset, size)),
        ) == number::decimal(offset),
{
    let a = number::decimal(offset);
    let b = number::decimal(size);
    number::lemma_decimal_digits(offset);
    number::lemma_decimal_digits(size);
    let x = seq![' '] + a + seq![' '] + b + seq![' '];
    assert(x[0] == ' ' && x[1] == a[0]);
    assert(number::is_digit(a[0]) && number::is_digit(b[b.len() - 1]));
    text::lemma_run(x, text::whites(), 1);
    let y = text::trim_start(x);
    assert(y == a + seq![' '] + b + seq![' ']);
    assert(y[y.len() - 1] == ' ' && y[y.len() - 2] == b[b.len() - 1]);
    text::lemma_run_back(y, text::whites(), 1);
    let t = text::trim(x);
    assert(t == a + seq![' '] + b);
    assert(t[0] == a[0]);
    text::lemma_run(t, text::whites(), 0);
    assert(text::trim_start(t) == t);
    assert forall|i: int| 0 <= i < a.len() implies text::inks()(#[trigger] t[i]) by {
        assert(number::is_digit(a[i]));
    }
    assert(t[a.len() as int] == ' ');
    text::lemma_run(t, text::inks(), a.len());
    assert(t.take(a.len() as int) == a);
}

/// A comment has no sign of a comment in it.
proof fn lemma_comment_is_bare(offset: nat, size: nat)
    ensures
        forall|i: int|
            0 <= i < comment_text(offset, size).len() ==> #[trigger] comment_text(offset, size)[i]
                != '/' && comment_text(offset, size)[i] != '*',
{
    let a = number::decimal(offset);
    let b = number::decimal(size);
    let inner = comment_text(offset, size);
    number::lemma_decimal_digits(offset);
    number::lemma_decimal_digits(size);
    assert forall|j: int| 0 <= j < inner.len() implies #[trigger] inner[j] != '/' && inner[j]
        != '*' by {
        if 1 <= j < 1 + a.len() {
            assert(inner[j] == a[j - 1]);
            assert(number::is_digit(a[j - 1]));
        } else if 2 + a.len() <= j < 2 + a.len() + b.len() {
            assert(inner[j] == b[j - 2 - a.len()]);
            assert(number::is_digit(b[j - 2 - a.len()]));
        } else {
            assert(inner[j] == ' ');
        }
    }
}

/// Where the comment of a line opens and closes.
proof fn lemma_comment_is_found(head: Seq<char>, inner: Seq<char>)
    requires
        forall|i: int| 0 <= i < inner.len() ==> #[trigger] inner[i] != '/' && inner[i] != '*',
    ensures
        ({
            let core = head + seq!['/', '*'] + inner + seq!['*', '/'];
            let comment = core.skip(head.len() as int + 2);
            &&& text::rfind_pair(core, '/', '*') == Some(head.len() as int)
            &&& core.take(head.len() as int) == head
            &&& text::find_pair(comment, '*', '/') == Some(inner.len() as int)
            &&& comment.take(inner.len() as int) == inner
        }),
{
    let core = head + seq!['/', '*'] + inner + seq!['*', '/'];
    let open: int = head.len() as int;
    let comment = core.skip(open + 2);
    assert(comment == inner + seq!['*', '/']);
    assert(core[open] == '/' && core[open + 1] == '*');
    text::law_last_pair_is_found(core, '/', '*');
    assert forall|j: int| open < j < core.len() - 1 implies #[trigger] core[j] != '/' by {
        if open + 2 <= j < open + 2 + inner.len() {
            assert(core[j] == inner[j - open - 2]);
        }
    }
    let close: int = inner.len() as int;
    assert(comment[close] == '*' && comment[close + 1] == '/');
    text::law_first_pair_is_found(comment, '*', '/');
    assert forall|j: int| 0 <= j < close implies #[trigger] comment[j] != '*' by {
        assert(comment[j] == inner[j]);
    }
}

/// A line is trimmed to what stands behind its indent.
proof fn lemma_indent_is_trimmed(indent: Seq<char>, core: Seq<char>)
    requires
        forall|i: int| 0 <= i < indent.len() ==> text::white(#[trigger] indent[i]),
        core.len() > 0,
        !text::white(core[0]),
        !text::white(core.last()),
    ensures
        text::trim(indent + core) == core,
{
    let line = indent + core;
    assert forall|i: int| 0 <= i < indent.len() implies text::whites()(#[trigger] line[i]) by {
        assert(line[i] == indent[i]);
    }
    assert(line[indent.len() as int] == core[0]);
    text::lemma_run(line, text::whites(), indent.len());
    assert(text::trim_start(line) == core);
    text::lemma_run_back(core, text::whites(), 0);
    assert(text::trim_end(core) == core);
}

/// The offset that a line of a listing gives is the one in its comment, and it is given to the field
/// that the line declares and to no other: whatever the type, with stars before the name or without,
/// with bits behind it or without, and however far the line is indented.
pub proof fn law_listed_offset_is_read(
    indent: Seq<char>,
    front: Seq<char>,
    stars: Seq<char>,
    name: Seq<char>,
    bits: Seq<char>,
    offset: nat,
    size: nat,
    field: Seq<char>,
)
    requires
        forall|i: int| 0 <= i < indent.len() ==> text::white(#[trigger] indent[i]),
        front.len() > 0 ==> text::white(front.last()) && !text::white(front[0]),
        !front.contains(';'),
        declares(stars + name + bits, stars, name, bits),
        offset <= usize::MAX,
    ensures
        line_offset(indent + listing_line(front, stars + name + bits, offset, size), field) == (
        if field == name {
            Some(offset)
        } else {
            None
        }),
{
    let word = stars + name + bits;
    let core = listing_line(front, word, offset, size);
    let head = front + word + seq![';', ' '];
    let inner = comment_text(offset, size);
    assert(!text::white(core[0])) by {
        assert(core[0] == head[0]);
        if front.len() > 0 {
            assert(head[0] == front[0]);
        } else {
            assert(head[0] == word[0]);
        }
    }
    assert(core.last() == '/');
    lemma_indent_is_trimmed(indent, core);
    lemma_comment_is_bare(offset, size);
    lemma_comment_is_found(head, inner);
    lemma_declared_word(front, word);
    lemma_declared_name(word, stars, name, bits);
    lemma_comment_number(offset, size);
    number::law_decimal_is_read_back(offset, usize::MAX as nat);
}

/// The sidecar of a path without a name goes by the name of the object that is usually there.
pub proof fn law_unnamed_object_has_a_usual_sidecar(object: Seq<char>)
    requires
        paths::file_name(object) is None,
    ensures
        sidecar_path(object) == paths::join(object, "rauha-ebpf"@ + ".offsets.json"@),
{
}

} // verus!
