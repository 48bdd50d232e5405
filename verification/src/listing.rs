//! Parsing of long-format directory-listing text captured from the remote
//! shell into structured entries.
//!
//! The text is untrusted: a summary line opens it, each remaining row holds
//! at least nine blank-separated fields, the ninth and following fields
//! joined by single blanks form the name (names may hold blanks), the
//! permissions field decides directoryhood, and a malformed size never
//! fails the whole listing. A not-found sentinel in the output means an
//! empty listing, not an error.

use vstd::prelude::*;
use crate::storage::{FileInfo, EntrySpec, models, entries_sorted, sort_entries, spec_mime};
use crate::text::{
    spec_fields, spec_lines, spec_parse_u64, join_space, contains_seq, split_fields, split_lines,
    join_fields_from, parse_u64, contains_str, str_eq,
};

verus! {

/// The size a listing row reports: its fifth field read as a decimal
/// number, or zero when that field is not one.
pub open spec fn spec_size(t: Seq<char>) -> u64 {
    match spec_parse_u64(t) {
        Option::Some(n) => n,
        Option::None => 0u64,
    }
}

/// The caller-visible path of a listed name under the queried path.
pub open spec fn spec_child_path(path: Seq<char>, name: Seq<char>) -> Seq<char> {
    if path.len() == 0 || path == "/"@ {
        seq!['/'] + name
    } else {
        path + seq!['/'] + name
    }
}

/// Names a listing row never surfaces: the two synthetic entries and the
/// repository's own bookkeeping.
pub open spec fn hidden_name(name: Seq<char>) -> bool {
    name == "."@ || name == ".."@ || name == ".git"@ || name == ".gitattributes"@
}

/// The entry one listing row denotes, if any: rows with fewer than nine
/// fields and rows naming hidden entries denote none.
pub open spec fn spec_row_entry(line: Seq<char>, path: Seq<char>) -> Option<EntrySpec> {
    let ts = spec_fields(line);
    if ts.len() < 9 {
        Option::None
    } else {
        let name = join_space(ts.skip(8));
        if hidden_name(name) {
            Option::None
        } else {
            let is_dir = ts[0].len() > 0 && ts[0][0] == 'd';
            Option::Some(
                EntrySpec {
                    name: name,
                    path: spec_child_path(path, name),
                    size: spec_size(ts[4]),
                    is_dir: is_dir,
                    modified: Option::None,
                    mime_type: if is_dir {
                        Option::None
                    } else {
                        Option::Some(spec_mime(name))
                    },
                    thumbnail: Option::None,
                },
            )
        }
    }
}

/// The entries a sequence of rows denotes, in row order.
pub open spec fn spec_listing_rows(ls: Seq<Seq<char>>, path: Seq<char>) -> Seq<EntrySpec>
    decreases ls.len(),
{
    if ls.len() == 0 {
        seq![]
    } else {
        match spec_row_entry(ls[0], path) {
            Option::Some(e) => seq![e] + spec_listing_rows(ls.drop_first(), path),
            Option::None => spec_listing_rows(ls.drop_first(), path),
        }
    }
}

/// The entries a whole captured listing denotes: none when the not-found
/// sentinel appears, otherwise those of every row past the summary line.
pub open spec fn spec_listing(output: Seq<char>, path: Seq<char>) -> Seq<EntrySpec> {
    if contains_seq(output, "DIR_NOT_FOUND"@) {
        seq![]
    } else {
        let ls = spec_lines(output);
        if ls.len() <= 1 {
            seq![]
        } else {
            spec_listing_rows(ls.skip(1), path)
        }
    }
}

/// Appending one row appends its entry, if it has one.
proof fn lemma_rows_snoc(ls: Seq<Seq<char>>, path: Seq<char>, l: Seq<char>)
    ensures
        spec_listing_rows(ls.push(l), path) == spec_listing_rows(ls, path) + match spec_row_entry(
            l,
            path,
        ) {
            Option::Some(e) => seq![e],
            Option::None => seq![],
        },
    decreases ls.len(),
{
    let tail = match spec_row_entry(l, path) {
        Option::Some(e) => seq![e],
        Option::None => Seq::<EntrySpec>::empty(),
    };
    if ls.len() == 0 {
        assert(ls.push(l)[0] == l);
        assert(ls.push(l).drop_first() =~= Seq::<Seq<char>>::empty());
        assert(spec_listing_rows(Seq::<Seq<char>>::empty(), path) == Seq::<EntrySpec>::empty());
        match spec_row_entry(l, path) {
            Option::Some(e) => {
                assert(spec_listing_rows(ls.push(l), path) =~= seq![e]);
                assert(spec_listing_rows(ls, path) + tail =~= seq![e]);
            },
            Option::None => {
                assert(spec_listing_rows(ls.push(l), path) =~= Seq::<EntrySpec>::empty());
                assert(spec_listing_rows(ls, path) + tail =~= Seq::<EntrySpec>::empty());
            },
        }
    } else {
        lemma_rows_snoc(ls.drop_first(), path, l);
        assert(ls.push(l)[0] == ls[0]);
        assert(ls.push(l).drop_first() =~= ls.drop_first().push(l));
        match spec_row_entry(ls[0], path) {
            Option::Some(e0) => {
                assert(spec_listing_rows(ls.push(l), path) =~= seq![e0] + spec_listing_rows(
                    ls.drop_first().push(l),
                    path,
                ));
                assert(spec_listing_rows(ls.push(l), path) =~= spec_listing_rows(ls, path) + tail);
            },
            Option::None => {
                assert(spec_listing_rows(ls.push(l), path) =~= spec_listing_rows(
                    ls.drop_first().push(l),
                    path,
                ));
                assert(spec_listing_rows(ls.push(l), path) =~= spec_listing_rows(ls, path) + tail);
            },
        }
    }
}

/// Builds the caller-visible path of `name` under `path`.
fn child_path(path: &str, name: &str) -> (r: String)
    ensures
        r@ == spec_child_path(path@, name@),
{
    proof {
        reveal_strlit("/");
        assert("/"@ =~= seq!['/']);
    }
    if path.unicode_len() == 0 || str_eq(path, "/") {
        let mut r = String::from_str("/");
        r.append(name);
        proof {
            assert(r@ =~= seq!['/'] + name@);
        }
        r
    } else {
        let mut r = String::from_str(path);
        r.append("/");
        r.append(name);
        proof {
            assert(r@ =~= path@ + seq!['/'] + name@);
        }
        r
    }
}

/// Parses one listing row.
fn parse_row(line: &str, path: &str) -> (r: Option<FileInfo>)
    ensures
        match r {
            Option::Some(f) => spec_row_entry(line@, path@) == Option::Some(f@),
            Option::None => spec_row_entry(line@, path@) is None,
        },
{
    let fields = split_fields(line);
    if fields.len() < 9 {
        return None;
    }
    let name = join_fields_from(&fields, 8);
    proof {
        assert(fields.deep_view().skip(8) =~= spec_fields(line@).skip(8));
    }
    if str_eq(name.as_str(), ".") || str_eq(name.as_str(), "..") || str_eq(name.as_str(), ".git")
        || str_eq(name.as_str(), ".gitattributes") {
        return None;
    }
    let f0 = fields[0].as_str();
    proof {
        assert(fields.deep_view()[0] == fields@[0]@);
    }
    let is_dir = f0.unicode_len() > 0 && f0.get_char(0) == 'd';
    proof {
        assert(fields.deep_view()[4] == fields@[4]@);
    }
    let size = match parse_u64(fields[4].as_str()) {
        Some(n) => n,
        None => 0,
    };
    let mime_type = if is_dir {
        None
    } else {
        crate::storage::detect_mime_type(name.as_str())
    };
    let entry_path = child_path(path, name.as_str());
    let f = FileInfo {
        name,
        path: entry_path,
        size,
        is_dir,
        modified: None,
        mime_type,
        thumbnail: None,
    };
    proof {
        assert(f.mime_type.deep_view() == spec_row_entry(line@, path@)->Some_0.mime_type);
    }
    Some(f)
}

/// Parses a whole captured listing into entries sorted in the promised
/// order. The entries are exactly those the rows denote; a sentinel or an
/// output without data rows yields the empty listing.
pub fn parse_listing(output: &str, path: &str) -> (r: Vec<FileInfo>)
    ensures
        entries_sorted(models(r@)),
        models(r@).to_multiset() == spec_listing(output@, path@).to_multiset(),
{
    if contains_str(output, "DIR_NOT_FOUND") {
        let r: Vec<FileInfo> = Vec::new();
        proof {
            assert(models(r@) =~= spec_listing(output@, path@));
        }
        return r;
    }
    let lines = split_lines(output);
    let n = lines.len();
    let mut v: Vec<FileInfo> = Vec::new();
    if n <= 1 {
        proof {
            assert(models(v@) =~= spec_listing(output@, path@));
        }
        return v;
    }
    let ghost ldv = lines.deep_view();
    let mut i: usize = 1;
    proof {
        assert(ldv.subrange(1, 1) =~= Seq::<Seq<char>>::empty());
        assert(models(v@) =~= spec_listing_rows(ldv.subrange(1, 1), path@));
    }
    while i < n
        invariant
            1 <= i <= n,
            n == lines@.len(),
            ldv == lines.deep_view(),
            ldv.len() == n,
            models(v@) == spec_listing_rows(ldv.subrange(1, i as int), path@),
        decreases n - i,
    {
        let ghost prev = models(v@);
        proof {
            assert(ldv[i as int] == lines@[i as int]@);
        }
        match parse_row(lines[i].as_str(), path) {
            Some(f) => {
                v.push(f);
                proof {
                    assert(models(v@) =~= prev.push(f@));
                    lemma_rows_snoc(ldv.subrange(1, i as int), path@, ldv[i as int]);
                    assert(ldv.subrange(1, i as int).push(ldv[i as int]) =~= ldv.subrange(
                        1,
                        i as int + 1,
                    ));
                    assert(models(v@) =~= spec_listing_rows(ldv.subrange(1, i as int + 1), path@));
                }
            },
            None => {
                proof {
                    lemma_rows_snoc(ldv.subrange(1, i as int), path@, ldv[i as int]);
                    assert(ldv.subrange(1, i as int).push(ldv[i as int]) =~= ldv.subrange(
                        1,
                        i as int + 1,
                    ));
                    assert(models(v@) =~= spec_listing_rows(ldv.subrange(1, i as int + 1), path@));
                }
            },
        }
        i += 1;
    }
    proof {
        assert(ldv.subrange(1, n as int) =~= ldv.skip(1));
        assert(models(v@) == spec_listing(output@, path@));
    }
    sort_entries(v)
}

} // verus!
