//! The character obfuscation codec, the text obfuscator built on it, and the
//! `Obfuscator` trait that the walkers use.
use rand::Rng;
use vstd::prelude::*;

use crate::parse::{number_of, parse_number, views};
use crate::text::{
    char_from_u32, chars_of, is_scalar, is_white_space, is_whitespace, str_equal,
    string_from_chars,
};

verus! {

/// One entry of the character range mapping table: characters in the source
/// range (inclusive) are replaced by a character drawn from the target range.
pub struct CharactersMapper {
    pub source_start: char,
    pub source_end: char,
    pub target_start: char,
    pub target_end: char,
    pub comment: String,
}

/// The ordered mapping table; the first entry whose source range holds a
/// character decides its replacement.
pub struct ObfuscatorConfig {
    pub mappers: Vec<CharactersMapper>,
}

/// Whether `c` lies in the source range of `m`.
pub open spec fn in_source(m: CharactersMapper, c: char) -> bool {
    m.source_start as u32 <= c as u32 && c as u32 <= m.source_end as u32
}

/// Whether some entry of `ms` covers `c`.
pub open spec fn in_any_source(ms: Seq<CharactersMapper>, c: char) -> bool {
    exists|i: int| 0 <= i < ms.len() && in_source(ms[i], c)
}

/// Entry `i` is the first entry of `ms` that covers `c`.
pub open spec fn first_match_at(ms: Seq<CharactersMapper>, c: char, i: int) -> bool {
    &&& 0 <= i < ms.len()
    &&& in_source(ms[i], c)
    &&& forall|j: int| 0 <= j < i ==> !in_source(ms[j], c)
}

/// A draw from `[start, end]` may land on a value that is no character (or
/// the range is empty), in which case the placeholder `'?'` stands in.
pub open spec fn placeholder_possible(start: u32, end: u32) -> bool {
    end < start || exists|v: u32| start <= v && v <= end && !is_scalar(v)
}

/// What a draw from the inclusive code range `[start, end]` may give.
pub open spec fn draw_allows(start: u32, end: u32, r: char) -> bool {
    (start <= r as u32 && r as u32 <= end) || (r == '?' && placeholder_possible(start, end))
}

/// What the codec may map `c` to under the table `ms`: `c` itself when no
/// entry covers it, else a draw from the target range of the first entry
/// that does.
pub open spec fn codec_allows(ms: Seq<CharactersMapper>, c: char, r: char) -> bool {
    if in_any_source(ms, c) {
        exists|i: int|
            first_match_at(ms, c, i) && draw_allows(
                ms[i].target_start as u32,
                ms[i].target_end as u32,
                r,
            )
    } else {
        r == c
    }
}

/// Full obfuscation of a text: same length, each character mapped by the codec.
pub open spec fn text_obfuscation(ms: Seq<CharactersMapper>, s: Seq<char>, r: Seq<char>) -> bool {
    &&& r.len() == s.len()
    &&& forall|i: int| 0 <= i < s.len() ==> codec_allows(ms, #[trigger] s[i], r[i])
}

/// The number of characters of `s` that are not white space.
pub open spec fn count_non_ws(s: Seq<char>) -> nat
    decreases s.len(),
{
    if s.len() == 0 {
        0
    } else {
        count_non_ws(s.drop_last()) + if is_white_space(s.last()) {
            0nat
        } else {
            1nat
        }
    }
}

/// Under a budget of `n` leading non-white-space characters, whether the
/// character at `i` is still inside the exempt head of `s`.
pub open spec fn exempt_at(s: Seq<char>, n: nat, i: int) -> bool {
    count_non_ws(s.subrange(0, i)) < n
}

/// The budget left after `s` has been scanned with a budget of `n`.
pub open spec fn remaining_after(s: Seq<char>, n: nat) -> nat {
    if count_non_ws(s) < n {
        (n - count_non_ws(s)) as nat
    } else {
        0
    }
}

/// Head-exempt obfuscation of `s` with budget `n`: characters in the exempt
/// head are kept, every other character is mapped by the codec.
pub open spec fn head_exempt_obfuscation(
    ms: Seq<CharactersMapper>,
    s: Seq<char>,
    n: nat,
    r: Seq<char>,
) -> bool {
    &&& r.len() == s.len()
    &&& forall|i: int|
        0 <= i < s.len() ==> if exempt_at(s, n, i) {
            r[i] == s[i]
        } else {
            codec_allows(ms, #[trigger] s[i], r[i])
        }
}

/// Relies on rand's `thread_rng().gen_range(start..=end)`: a value of the
/// inclusive range. It panics on an empty range, which `requires` leaves out.
#[verifier::external_body]
fn random_u32_in(start: u32, end: u32) -> (r: u32)
    requires
        start <= end,
    ensures
        start <= r <= end,
{
    rand::thread_rng().gen_range(start..=end)
}

/// Draws a character from the code range `[start, end]`, falling back to
/// `'?'` where the draw is no character or the range is empty.
fn random_unicode_char(start: u32, end: u32) -> (r: char)
    ensures
        draw_allows(start, end, r),
{
    if end < start {
        return '?';
    }
    let v = random_u32_in(start, end);
    char_from_draw(v)
}

/// The character for a drawn code: the character with that code, or `'?'`
/// where the code is no character.
pub fn char_from_draw(v: u32) -> (r: char)
    ensures
        is_scalar(v) ==> r as u32 == v,
        !is_scalar(v) ==> r == '?',
{
    match char_from_u32(v) {
        Some(c) => c,
        None => '?',
    }
}

/// The codec: maps `input` through the first entry of the table that covers
/// it, and leaves it unchanged where none does.
pub fn random_char(config: &ObfuscatorConfig, input: char) -> (r: char)
    ensures
        codec_allows(config.mappers@, input, r),
{
    let ghost ms = config.mappers@;
    let mut i: usize = 0;
    while i < config.mappers.len()
        invariant
            ms == config.mappers@,
            i <= ms.len(),
            forall|j: int| 0 <= j < i ==> !in_source(ms[j], input),
        decreases ms.len() - i,
    {
        let m = &config.mappers[i];
        if m.source_start as u32 <= input as u32 && input as u32 <= m.source_end as u32 {
            let r = random_unicode_char(m.target_start as u32, m.target_end as u32);
            assert(first_match_at(ms, input, i as int));
            return r;
        }
        i = i + 1;
    }
    input
}

/// Full obfuscation: every character of `s` goes through the codec.
pub fn obfuscated_text(config: &ObfuscatorConfig, s: &str) -> (r: String)
    ensures
        text_obfuscation(config.mappers@, s@, r@),
{
    let cs = chars_of(s);
    let mut out: Vec<char> = Vec::new();
    let mut i: usize = 0;
    while i < cs.len()
        invariant
            cs@ == s@,
            i <= cs@.len(),
            out@.len() == i,
            forall|j: int| 0 <= j < i ==> codec_allows(config.mappers@, #[trigger] cs@[j], out@[j]),
        decreases cs@.len() - i,
    {
        let c = random_char(config, cs[i]);
        out.push(c);
        i = i + 1;
    }
    string_from_chars(out.as_slice())
}

proof fn lemma_count_push(s: Seq<char>, c: char)
    ensures
        count_non_ws(s.push(c)) == count_non_ws(s) + if is_white_space(c) {
            0nat
        } else {
            1nat
        },
{
    assert(s.push(c).drop_last() == s);
}

/// Head-exempt obfuscation: while the budget `ignore_remaining` is positive,
/// characters pass through unchanged and each non-white-space one uses up one
/// unit of it; once it is spent, every character goes through the codec.
/// Returns the text and the budget left for the next text.
pub fn obfuscated_with_remaining(
    config: &ObfuscatorConfig,
    text: &str,
    ignore_remaining: usize,
) -> (r: (String, usize))
    ensures
        head_exempt_obfuscation(config.mappers@, text@, ignore_remaining as nat, r.0@),
        r.1 == remaining_after(text@, ignore_remaining as nat),
{
    let ghost n = ignore_remaining as nat;
    let cs = chars_of(text);
    let mut out: Vec<char> = Vec::new();
    let mut budget = ignore_remaining;
    let mut i: usize = 0;
    while i < cs.len()
        invariant
            cs@ == text@,
            i <= cs@.len(),
            out@.len() == i,
            budget == remaining_after(cs@.subrange(0, i as int), n),
            forall|j: int|
                0 <= j < i ==> if exempt_at(cs@, n, j) {
                    out@[j] == cs@[j]
                } else {
                    codec_allows(config.mappers@, #[trigger] cs@[j], out@[j])
                },
        decreases cs@.len() - i,
    {
        let c = cs[i];
        proof {
            assert(cs@.subrange(0, i + 1) == cs@.subrange(0, i as int).push(c));
            lemma_count_push(cs@.subrange(0, i as int), c);
        }
        if budget > 0 {
            out.push(c);
            if !is_whitespace(c) {
                budget = budget - 1;
            }
        } else {
            let d = random_char(config, c);
            out.push(d);
        }
        i = i + 1;
    }
    assert(cs@.subrange(0, cs@.len() as int) == cs@);
    (string_from_chars(out.as_slice()), budget)
}

/// The table that replaces each common Han character by another one.
pub open spec fn han_table_ok(ms: Seq<CharactersMapper>) -> bool {
    &&& ms.len() == 1
    &&& ms[0].source_start == '\u{4e00}'
    &&& ms[0].source_end == '\u{9fa5}'
    &&& ms[0].target_start == '\u{4e00}'
    &&& ms[0].target_end == '\u{9fa4}'
}

/// Obfuscates the common Han characters of `text` (U+4E00 to U+9FA5),
/// each replaced by a common Han character; other characters are kept.
pub fn obfuscate_text(text: &str) -> (r: String)
    ensures
        exists|ms: Seq<CharactersMapper>| han_table_ok(ms) && #[trigger] text_obfuscation(ms, text@, r@),
{
    let mut mappers: Vec<CharactersMapper> = Vec::new();
    mappers.push(CharactersMapper {
        source_start: '\u{4e00}',
        source_end: '\u{9fa5}',
        target_start: '\u{4e00}',
        target_end: '\u{9fa4}',
        comment: String::new(),
    });
    let config = ObfuscatorConfig { mappers };
    let r = obfuscated_text(&config, text);
    assert(han_table_ok(config.mappers@));
    r
}

/// One row of the mapping table, as text: code points in hexadecimal.
pub struct Record {
    pub source_start: String,
    pub source_end: String,
    pub target_start: String,
    pub target_end: String,
    pub comment: String,
}

/// Why a row of the mapping table was not taken.
#[derive(Clone, Copy, PartialEq, Eq, Structural)]
pub enum MapperError {
    /// A field is no hexadecimal number that fits in 32 bits.
    NotHex,
    /// A field is a number that is no character.
    NotAChar,
}

/// Whether `s` writes, in hexadecimal, the code of a character.
pub open spec fn hex_is_char(s: Seq<char>) -> bool {
    number_of(s, 16) matches Some(v) && v <= u32::MAX && is_scalar(v as u32)
}

/// `c` is the character whose code `s` writes in hexadecimal.
pub open spec fn hex_char(s: Seq<char>, c: char) -> bool {
    number_of(s, 16) == Some(c as u32 as nat)
}

/// Whether every code field of `r` writes a character.
pub open spec fn record_ok(r: Record) -> bool {
    hex_is_char(r.source_start@) && hex_is_char(r.source_end@) && hex_is_char(r.target_start@)
        && hex_is_char(r.target_end@)
}

/// `m` is the mapper that record `r` describes.
pub open spec fn mapper_of_record(r: Record, m: CharactersMapper) -> bool {
    &&& hex_char(r.source_start@, m.source_start)
    &&& hex_char(r.source_end@, m.source_end)
    &&& hex_char(r.target_start@, m.target_start)
    &&& hex_char(r.target_end@, m.target_end)
    &&& m.comment@ == r.comment@
}

fn hex_to_char(s: &str) -> (r: Result<char, MapperError>)
    ensures
        match r {
            Ok(c) => hex_char(s@, c) && hex_is_char(s@),
            Err(_) => !hex_is_char(s@),
        },
{
    match parse_number(s, 16, 0xffff_ffff) {
        None => Err(MapperError::NotHex),
        Some(v) => match char_from_u32(v as u32) {
            Some(c) => Ok(c),
            None => Err(MapperError::NotAChar),
        },
    }
}

impl CharactersMapper {
    /// The mapper that a row of the mapping table describes; an error where
    /// a code field writes no character.
    pub fn try_from(record: Record) -> (r: Result<CharactersMapper, MapperError>)
        ensures
            match r {
                Ok(m) => record_ok(record) && mapper_of_record(record, m),
                Err(_) => !record_ok(record),
            },
    {
        let source_start = hex_to_char(record.source_start.as_str())?;
        let source_end = hex_to_char(record.source_end.as_str())?;
        let target_start = hex_to_char(record.target_start.as_str())?;
        let target_end = hex_to_char(record.target_end.as_str())?;
        Ok(CharactersMapper { source_start, source_end, target_start, target_end, comment: record.comment })
    }
}

/// The header row of a CSV text, as csv reads it.
pub uninterp spec fn csv_headers_of(content: Seq<char>) -> Option<Seq<Seq<char>>>;

/// The rows after the header row of a CSV text, as csv reads them: the
/// fields of each, or `None` where csv reports an error for that row.
pub uninterp spec fn csv_rows_of(content: Seq<char>) -> Seq<Option<Seq<Seq<char>>>>;

/// Relies on csv's `Reader::headers`: the first row of the text, read as the
/// header row; `None` where csv reports an error.
#[verifier::external_body]
fn csv_headers(content: &str) -> (r: Option<Vec<String>>)
    ensures
        match r {
            Some(h) => csv_headers_of(content@) == Some(views(h@)),
            None => csv_headers_of(content@) is None,
        },
{
    let mut reader = csv::Reader::from_reader(content.as_bytes());
    reader.headers().ok().map(|h| h.iter().map(|f| f.to_string()).collect())
}

/// Relies on csv's `Reader::records`: the rows after the header row, each as
/// its fields, or `None` where csv reports an error for that row.
#[verifier::external_body]
fn csv_rows(content: &str) -> (r: Vec<Option<Vec<String>>>)
    ensures
        r@.len() == csv_rows_of(content@).len(),
        forall|i: int|
            0 <= i < r@.len() ==> match #[trigger] r@[i] {
                Some(f) => csv_rows_of(content@)[i] == Some(views(f@)),
                None => csv_rows_of(content@)[i] is None,
            },
{
    let mut reader = csv::Reader::from_reader(content.as_bytes());
    reader.records().map(|r| r.ok().map(|rec| rec.iter().map(|f| f.to_string()).collect())).collect()
}

/// The field of `row` under the first header named `name`.
pub open spec fn field_of(headers: Seq<Seq<char>>, row: Seq<Seq<char>>, name: Seq<char>) -> Option<Seq<char>> {
    if exists|j: int| 0 <= j < headers.len() && headers[j] == name {
        let j = choose|j: int|
            0 <= j < headers.len() && headers[j] == name && forall|k: int| 0 <= k < j ==> headers[k] != name;
        if j < row.len() {
            Some(row[j])
        } else {
            None
        }
    } else {
        None
    }
}

/// `r` is the record that `row` holds under `headers`: every field present.
pub open spec fn record_of_row(headers: Seq<Seq<char>>, row: Seq<Seq<char>>, r: Record) -> bool {
    &&& field_of(headers, row, "source_start"@) == Some(r.source_start@)
    &&& field_of(headers, row, "source_end"@) == Some(r.source_end@)
    &&& field_of(headers, row, "target_start"@) == Some(r.target_start@)
    &&& field_of(headers, row, "target_end"@) == Some(r.target_end@)
    &&& field_of(headers, row, "comment"@) == Some(r.comment@)
}

/// Whether `row` holds every field of a record under `headers`.
pub open spec fn row_complete(headers: Seq<Seq<char>>, row: Seq<Seq<char>>) -> bool {
    field_of(headers, row, "source_start"@) is Some && field_of(headers, row, "source_end"@) is Some
        && field_of(headers, row, "target_start"@) is Some && field_of(headers, row, "target_end"@)
        is Some && field_of(headers, row, "comment"@) is Some
}

/// Whether `row` describes a mapper: complete, with every code a character.
pub open spec fn row_usable(headers: Seq<Seq<char>>, row: Option<Seq<Seq<char>>>) -> bool {
    row matches Some(f) && row_complete(headers, f) && hex_is_char(field_of(headers, f, "source_start"@)->0)
        && hex_is_char(field_of(headers, f, "source_end"@)->0) && hex_is_char(
        field_of(headers, f, "target_start"@)->0,
    ) && hex_is_char(field_of(headers, f, "target_end"@)->0)
}

/// The usable rows among `rows`, in order.
pub open spec fn usable_rows(headers: Seq<Seq<char>>, rows: Seq<Option<Seq<Seq<char>>>>) -> Seq<Seq<Seq<char>>>
    decreases rows.len(),
{
    if rows.len() == 0 {
        seq![]
    } else {
        let rest = usable_rows(headers, rows.drop_last());
        if row_usable(headers, rows.last()) {
            rest.push(rows.last()->0)
        } else {
            rest
        }
    }
}

/// `m` is the mapper that `row` describes under `headers`.
pub open spec fn mapper_of_row(headers: Seq<Seq<char>>, row: Seq<Seq<char>>, m: CharactersMapper) -> bool {
    &&& hex_char(field_of(headers, row, "source_start"@)->0, m.source_start)
    &&& hex_char(field_of(headers, row, "source_end"@)->0, m.source_end)
    &&& hex_char(field_of(headers, row, "target_start"@)->0, m.target_start)
    &&& hex_char(field_of(headers, row, "target_end"@)->0, m.target_end)
    &&& m.comment@ == field_of(headers, row, "comment"@)->0
}

/// The mapping table that a parsed CSV text describes: one mapper per
/// usable row, in order.
pub open spec fn table_describes(headers: Seq<Seq<char>>, rows: Seq<Option<Seq<Seq<char>>>>, ms: Seq<CharactersMapper>) -> bool {
    let good = usable_rows(headers, rows);
    &&& ms.len() == good.len()
    &&& forall|i: int| 0 <= i < ms.len() ==> mapper_of_row(headers, #[trigger] good[i], ms[i])
}

fn field(headers: &Vec<String>, row: &Vec<String>, name: &str) -> (r: Option<String>)
    ensures
        match r {
            Some(v) => field_of(views(headers@), views(row@), name@) == Some(v@),
            None => field_of(views(headers@), views(row@), name@) is None,
        },
{
    let mut j: usize = 0;
    while j < headers.len()
        invariant
            j <= headers@.len(),
            forall|k: int| 0 <= k < j ==> headers@[k]@ != name@,
        decreases headers@.len() - j,
    {
        if str_equal(headers[j].as_str(), name) {
            let ghost hv = views(headers@);
            assert(hv[j as int] == name@);
            assert(forall|k: int| 0 <= k < j ==> hv[k] != name@);
            if j < row.len() {
                return Some(row[j].clone());
            } else {
                return None;
            }
        }
        j = j + 1;
    }
    assert(forall|k: int| 0 <= k < headers@.len() ==> views(headers@)[k] != name@);
    None
}

/// The record that `row` holds under `headers`; `None` where a field is missing.
pub fn record_from_row(headers: &Vec<String>, row: &Vec<String>) -> (r: Option<Record>)
    ensures
        match r {
            Some(rec) => record_of_row(views(headers@), views(row@), rec),
            None => !row_complete(views(headers@), views(row@)),
        },
{
    let source_start = field(headers, row, "source_start")?;
    let source_end = field(headers, row, "source_end")?;
    let target_start = field(headers, row, "target_start")?;
    let target_end = field(headers, row, "target_end")?;
    let comment = field(headers, row, "comment")?;
    Some(Record { source_start, source_end, target_start, target_end, comment })
}

/// The mapper that `row` describes under `headers`, where it is usable.
pub fn mapper_from_row(headers: &Vec<String>, row: &Vec<String>) -> (r: Option<CharactersMapper>)
    ensures
        r is Some == row_usable(views(headers@), Some(views(row@))),
        r matches Some(m) ==> mapper_of_row(views(headers@), views(row@), m),
{
    match record_from_row(headers, row) {
        None => None,
        Some(rec) => match CharactersMapper::try_from(rec) {
            Ok(m) => Some(m),
            Err(_) => None,
        },
    }
}

impl ObfuscatorConfig {
    /// The mapping table described by a parsed CSV text: the rows that
    /// fail to parse, lack a field, or hold a code that is no character are
    /// left out.
    pub fn from_table(headers: &Vec<String>, rows: &Vec<Option<Vec<String>>>) -> (r: ObfuscatorConfig)
        ensures
            table_describes(
                views(headers@),
                rows@.map_values(|o: Option<Vec<String>>| match o {
                    Some(f) => Some(views(f@)),
                    None => None,
                }),
                r.mappers@,
            ),
    {
        let ghost hv = views(headers@);
        let ghost rv = rows@.map_values(|o: Option<Vec<String>>| match o {
            Some(f) => Some(views(f@)),
            None => None,
        });
        let mut mappers: Vec<CharactersMapper> = Vec::new();
        let mut i: usize = 0;
        while i < rows.len()
            invariant
                i <= rows@.len(),
                hv == views(headers@),
                rv.len() == rows@.len(),
                forall|k: int| 0 <= k < rows@.len() ==> #[trigger] rv[k] == match rows@[k] {
                    Some(f) => Some(views(f@)),
                    None => None,
                },
                table_describes(hv, rv.subrange(0, i as int), mappers@),
            decreases rows@.len() - i,
        {
            assert(rv.subrange(0, i + 1).drop_last() == rv.subrange(0, i as int));
            assert(rv.subrange(0, i + 1).last() == rv[i as int]);
            let found = match &rows[i] {
                None => None,
                Some(row) => mapper_from_row(headers, row),
            };
            match found {
                Some(m) => {
                    mappers.push(m);
                },
                None => {},
            }
            i = i + 1;
        }
        assert(rv.subrange(0, rows@.len() as int) == rv);
        ObfuscatorConfig { mappers }
    }

    /// Loads the mapping table from CSV text with a header row naming the
    /// columns `source_start`, `source_end`, `target_start`, `target_end`
    /// (code points in hexadecimal) and `comment`. Rows that cannot be read
    /// or converted are left out; without a header row the table is empty.
    pub fn load_from_csv(content: &str) -> (r: ObfuscatorConfig)
        ensures
            match csv_headers_of(content@) {
                Some(h) => table_describes(h, csv_rows_of(content@), r.mappers@),
                None => r.mappers@.len() == 0,
            },
    {
        match csv_headers(content) {
            None => ObfuscatorConfig { mappers: Vec::new() },
            Some(headers) => {
                let rows = csv_rows(content);
                let r = ObfuscatorConfig::from_table(&headers, &rows);
                proof {
                    let rv = rows@.map_values(|o: Option<Vec<String>>| match o {
                        Some(f) => Some(views(f@)),
                        None => None,
                    });
                    assert forall|k: int| 0 <= k < rv.len() implies rv[k] == csv_rows_of(content@)[k] by {
                        match rows@[k] {
                            Some(f) => {},
                            None => {},
                        }
                    }
                    assert(rv =~= csv_rows_of(content@));
                }
                r
            },
        }
    }
}

} // verus!
