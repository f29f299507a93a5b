//! Tag banks: named sets of tags, each kept in a file of its own.
//!
//! The name that a user gives a bank is made safe for a file name before it
//! is used: see [`sanitize_bank`].

use vstd::prelude::*;
use crate::decimal::{decimal_text, write_u64};
use crate::folder::FolderEntry;
use crate::sorted::{filed_under, sort_by_key, sorted_by};
use crate::text::{
    char_is_whitespace, chars_of, has_prefix_at, is_whitespace, leading, lemma_stripped_ends,
    lowercased, same_text, starts_with_at, string_of, stripped, text_of, to_lowercase, trailing,
    trim, trimmed,
};

verus! {

/// The version of the layout of a tags file.
pub const TAGS_SCHEMA_VERSION: u32 = 1;

/// The content of a tags file without tags.
pub open spec fn default_tags_text() -> Seq<char> {
    "{ \"version\": "@ + decimal_text(TAGS_SCHEMA_VERSION as nat) + ", \"tags\": [] }"@
}

/// The content that a tags file is given when it is first made: the
/// version of the layout and no tags.
pub fn default_tags_json() -> (json: String)
    ensures
        json@ == default_tags_text(),
{
    let mut json = String::new();
    json.append("{ \"version\": ");
    write_u64(&mut json, TAGS_SCHEMA_VERSION as u64);
    json.append(", \"tags\": [] }");
    json
}

/// Whether `c` is an ASCII letter or digit.
pub open spec fn is_ascii_alphanumeric(c: char) -> bool {
    ('0' <= c && c <= '9') || ('a' <= c && c <= 'z') || ('A' <= c && c <= 'Z')
}

/// What one character of a name leaves in the name of a bank: itself where
/// it is an ASCII letter or digit, a hyphen or an underscore; a hyphen
/// where it is white space; nothing otherwise.
pub open spec fn bank_chars(c: char) -> Seq<char> {
    if is_ascii_alphanumeric(c) || c == '-' || c == '_' {
        seq![c]
    } else if is_whitespace(c) {
        seq!['-']
    } else {
        Seq::empty()
    }
}

/// What the characters of `s` leave, one after the other.
pub open spec fn cleaned(s: Seq<char>) -> Seq<char>
    decreases s.len(),
{
    if s.len() == 0 {
        Seq::empty()
    } else {
        cleaned(s.drop_last()) + bank_chars(s.last())
    }
}

/// The test for a hyphen.
pub open spec fn hyphen() -> spec_fn(char) -> bool {
    |c: char| c == '-'
}

/// The name of the bank for a name that is trimmed and in lower case
/// already: what its characters leave, without the hyphens at either end,
/// and `default` where that is nothing.
pub open spec fn sanitized_lowered(lowered: Seq<char>) -> Seq<char> {
    let core = stripped(cleaned(lowered), hyphen());
    if core.len() == 0 {
        "default"@
    } else {
        core
    }
}

/// The name of the bank that `name` stands for.
pub open spec fn sanitized_bank(name: Seq<char>) -> Seq<char> {
    sanitized_lowered(lowercased(trimmed(name)))
}

/// Whether `c` may stand in the name of a bank.
pub open spec fn is_bank_char(c: char) -> bool {
    is_ascii_alphanumeric(c) || c == '-' || c == '_'
}

/// What is left of a text holds only characters that may stand in the name
/// of a bank.
pub proof fn lemma_cleaned_chars(s: Seq<char>)
    ensures
        forall|i: int| 0 <= i < cleaned(s).len() ==> is_bank_char(#[trigger] cleaned(s)[i]),
    decreases s.len(),
{
    if s.len() > 0 {
        lemma_cleaned_chars(s.drop_last());
        let before = cleaned(s.drop_last());
        let added = bank_chars(s.last());
        assert forall|i: int| 0 <= i < cleaned(s).len() implies is_bank_char(
            #[trigger] cleaned(s)[i],
        ) by {
            if i < before.len() {
                assert(cleaned(s)[i] == before[i]);
            } else {
                assert(cleaned(s)[i] == added[i - before.len()]);
            }
        }
    }
}

/// The name of a bank is never empty, holds nothing but ASCII letters,
/// digits, hyphens and underscores, and neither begins nor ends with a
/// hyphen: it can stand in the name of a file and names no other directory.
pub proof fn lemma_bank_name_is_safe(name: Seq<char>)
    ensures
        sanitized_bank(name).len() > 0,
        forall|i: int|
            0 <= i < sanitized_bank(name).len() ==> is_bank_char(#[trigger] sanitized_bank(name)[i]),
        sanitized_bank(name).first() != '-',
        sanitized_bank(name).last() != '-',
{
    let kept = cleaned(lowercased(trimmed(name)));
    let core = stripped(kept, hyphen());
    lemma_cleaned_chars(lowercased(trimmed(name)));
    lemma_stripped_ends(kept, hyphen());
    if core.len() == 0 {
        reveal_strlit("default");
    }
}

/// Makes the name of a bank from a name that is trimmed and in lower case
/// already.
pub fn sanitize_lowered(lowered: &str) -> (bank: String)
    ensures
        bank@ == sanitized_lowered(lowered@),
{
    let chars = chars_of(lowered);
    let mut kept: Vec<char> = Vec::new();
    let mut i: usize = 0;
    while i < chars.len()
        invariant
            i <= chars.len(),
            kept@ == cleaned(chars@.take(i as int)),
        decreases chars.len() - i,
    {
        let c = chars[i];
        proof {
            assert(chars@.take(i + 1).drop_last() =~= chars@.take(i as int));
        }
        if (c >= '0' && c <= '9') || (c >= 'a' && c <= 'z') || (c >= 'A' && c <= 'Z') || c == '-'
            || c == '_' {
            kept.push(c);
        } else if char_is_whitespace(c) {
            kept.push('-');
        }
        i += 1;
    }
    assert(chars@.take(chars.len() as int) =~= chars@);
    let mut from: usize = 0;
    assert(kept@.skip(0) =~= kept@);
    while from < kept.len() && kept[from] == '-'
        invariant
            from <= kept.len(),
            leading(kept@, hyphen()) == from + leading(kept@.skip(from as int), hyphen()),
        decreases kept.len() - from,
    {
        assert(kept@.skip(from as int).drop_first() =~= kept@.skip(from + 1));
        from += 1;
    }
    let ghost rest = kept@.skip(from as int);
    let mut to: usize = kept.len();
    while to > from && kept[to - 1] == '-'
        invariant
            from <= to <= kept.len(),
            rest == kept@.skip(from as int),
            trailing(rest, hyphen()) == (kept.len() - to) + trailing(
                kept@.subrange(from as int, to as int),
                hyphen(),
            ),
        decreases to - from,
    {
        assert(kept@.subrange(from as int, to as int).drop_last() =~= kept@.subrange(
            from as int,
            to - 1,
        ));
        to -= 1;
    }
    if from == to {
        "default".to_owned()
    } else {
        string_of(&kept, from, to)
    }
}

/// Makes the name of a bank from the name that a user gave it: trimmed, in
/// lower case, reduced to ASCII letters, digits, hyphens and underscores,
/// with a hyphen for each white space inside and none at either end.
/// A name of which nothing is left gives `default`.
pub fn sanitize_bank(name: &str) -> (bank: String)
    ensures
        bank@ == sanitized_bank(name@),
{
    let trimmed = trim(name);
    let lowered = to_lowercase(trimmed.as_str());
    sanitize_lowered(lowered.as_str())
}

/// The name of the file of the bank that `name` stands for.
pub open spec fn bank_file_name(name: Seq<char>) -> Seq<char> {
    "tags."@ + sanitized_bank(name) + ".json"@
}

/// The path of the file of the bank that `name` stands for, from the
/// directory of the banks.
pub fn bank_path(name: &str) -> (path: String)
    ensures
        path@ == bank_file_name(name@),
{
    let mut path = String::new();
    path.append("tags.");
    let bank = sanitize_bank(name);
    path.append(bank.as_str());
    path.append(".json");
    path
}

/// The beginning of the name of every file of a bank.
pub open spec fn bank_file_prefix() -> Seq<char> {
    seq!['t', 'a', 'g', 's', '.']
}

/// `s` without the `tags.` at its start, however often it stands there.
pub open spec fn without_prefixes(s: Seq<char>) -> Seq<char>
    decreases s.len(),
{
    if has_prefix_at(s, 0, bank_file_prefix()) {
        without_prefixes(s.skip(bank_file_prefix().len() as int))
    } else {
        s
    }
}

/// The name of the bank kept in a file whose name has the stem `stem` and
/// the extension `ext`; `None` where the file is not that of a bank, which
/// is named `tags.`, the name of the bank, and `.json`.
pub open spec fn bank_of_file(stem: Option<Seq<char>>, ext: Option<Seq<char>>) -> Option<
    Seq<char>,
> {
    match (stem, ext) {
        (Some(s), Some(e)) => if e == "json"@ && has_prefix_at(s, 0, bank_file_prefix()) {
            Some(without_prefixes(s))
        } else {
            None
        },
        _ => None,
    }
}

/// The names of the banks kept in the files `entries`, in their order.
pub open spec fn banks_found(entries: Seq<FolderEntry>) -> Seq<Seq<char>>
    decreases entries.len(),
{
    if entries.len() == 0 {
        Seq::empty()
    } else {
        let rest = banks_found(entries.drop_last());
        match bank_of_file(text_of(entries.last().stem), text_of(entries.last().extension)) {
            Some(name) => rest.push(name),
            None => rest,
        }
    }
}

/// The names that are listed where `found` were found: those, and
/// `default` where it is not among them.
pub open spec fn banks_listed(found: Seq<Seq<char>>) -> Seq<Seq<char>> {
    if found.contains("default"@) {
        found
    } else {
        found.push("default"@)
    }
}

/// How often `name` stands in `names`.
pub open spec fn occurrences(names: Seq<Seq<char>>, name: Seq<char>) -> nat {
    names.filter(|n: Seq<char>| n == name).len()
}

/// The characters of each of `names`.
pub open spec fn texts(names: Seq<String>) -> Seq<Seq<char>> {
    Seq::new(names.len(), |i: int| names[i]@)
}

/// What a name is filed under: itself.
pub open spec fn name_key() -> spec_fn(String) -> Seq<char> {
    |name: String| name@
}

/// A name stands among strings as often as among their characters.
pub proof fn lemma_occurrences_of_texts(names: Seq<String>, name: Seq<char>)
    ensures
        names.filter(filed_under(name_key(), name)).len() == occurrences(texts(names), name),
    decreases names.len(),
{
    reveal(Seq::filter);
    if names.len() > 0 {
        lemma_occurrences_of_texts(names.drop_last(), name);
        assert(texts(names).drop_last() =~= texts(names.drop_last()));
    }
}

/// Finds the name of the bank kept in a file, by the stem and the
/// extension of the name of the file.
pub fn bank_name_of_file(stem: Option<&str>, ext: Option<&str>) -> (bank: Option<String>)
    ensures
        text_of(bank) == bank_of_file(
            match stem {
                Some(s) => Some(s@),
                None => None,
            },
            match ext {
                Some(e) => Some(e@),
                None => None,
            },
        ),
{
    match (stem, ext) {
        (Some(s), Some(e)) => {
            if !same_text(e, "json") {
                return None;
            }
            let chars = chars_of(s);
            let prefix: Vec<char> = vec!['t', 'a', 'g', 's', '.'];
            if !starts_with_at(&chars, 0, &prefix) {
                return None;
            }
            let mut at: usize = 0;
            assert(chars@.skip(0) =~= chars@);
            while starts_with_at(&chars, at, &prefix)
                invariant
                    at <= chars.len(),
                    prefix@ == bank_file_prefix(),
                    without_prefixes(chars@) == without_prefixes(chars@.skip(at as int)),
                decreases chars.len() - at,
            {
                assert(chars@.skip(at as int).subrange(0, 5) =~= chars@.subrange(
                    at as int,
                    at + 5,
                ));
                assert(chars@.skip(at as int).skip(5) =~= chars@.skip(at + 5));
                at += 5;
            }
            proof {
                if at + 5 <= chars.len() {
                    assert(chars@.skip(at as int).subrange(0, 5) =~= chars@.subrange(
                        at as int,
                        at + 5,
                    ));
                }
            }
            Some(string_of(&chars, at, chars.len()))
        },
        _ => None,
    }
}

/// Lists the banks kept in a directory with the entries `entries`: the
/// names of the banks whose files are there, `default` whether its file is
/// there or not, sorted. A name stands in the list as often as it was found.
pub fn list_tag_banks(entries: &Vec<FolderEntry>) -> (banks: Vec<String>)
    ensures
        sorted_by(banks@, name_key()),
        forall|name: Seq<char>| #[trigger]
            occurrences(texts(banks@), name) == occurrences(
                banks_listed(banks_found(entries@)),
                name,
            ),
{
    let mut found: Vec<String> = Vec::new();
    let mut has_default = false;
    let mut i: usize = 0;
    while i < entries.len()
        invariant
            i <= entries.len(),
            texts(found@) == banks_found(entries@.take(i as int)),
            has_default == banks_found(entries@.take(i as int)).contains("default"@),
        decreases entries.len() - i,
    {
        let entry = &entries[i];
        assert(entries@.take(i + 1).drop_last() =~= entries@.take(i as int));
        let ghost before = banks_found(entries@.take(i as int));
        let stem = match &entry.stem {
            Some(s) => Some(s.as_str()),
            None => None,
        };
        let ext = match &entry.extension {
            Some(e) => Some(e.as_str()),
            None => None,
        };
        match bank_name_of_file(stem, ext) {
            Some(name) => {
                let is_default = same_text(name.as_str(), "default");
                proof {
                    let after = before.push(name@);
                    assert(after[after.len() - 1] == name@);
                    if has_default {
                        let j = choose|j: int| 0 <= j < before.len() && before[j] == "default"@;
                        assert(after[j] == "default"@);
                    }
                }
                has_default = has_default || is_default;
                found.push(name);
            },
            None => {},
        }
        i += 1;
    }
    assert(entries@.take(entries.len() as int) =~= entries@);
    if !has_default {
        let ghost before = found@;
        found.push("default".to_owned());
        assert(texts(found@) =~= texts(before).push("default"@));
    }
    let mut keys: Vec<Vec<char>> = Vec::new();
    let mut k: usize = 0;
    while k < found.len()
        invariant
            k <= found.len(),
            keys.len() == k,
            forall|j: int| 0 <= j < k ==> (#[trigger] keys[j])@ == name_key()(found[j]),
        decreases found.len() - k,
    {
        keys.push(chars_of(found[k].as_str()));
        k += 1;
    }
    let ghost listed = found@;
    let banks = sort_by_key(keys, found, Ghost(name_key()));
    assert forall|name: Seq<char>| #[trigger]
        occurrences(texts(banks@), name) == occurrences(
            banks_listed(banks_found(entries@)),
            name,
        ) by {
        lemma_occurrences_of_texts(banks@, name);
        lemma_occurrences_of_texts(listed, name);
    }
    banks
}

} // verus!
