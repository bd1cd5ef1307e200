//! Directory-listing entries and their deterministic ordering: directories
//! strictly before files, each group sorted case-insensitively by name.

use vstd::prelude::*;
use vstd::relations::sorted_by;
use vstd::multiset::Multiset;
use core::cmp::Ordering;
use crate::strutil::{
    lower_of, to_lowercase, chars_of, lex_cmp, lex_cmp_vec, lemma_lex_cmp_antisym,
    lemma_lex_le_trans,
};
use crate::localization::{args_map, message_spec, pairs_map, pairs_of, LocalizerState};

verus! {

/// One entry of a directory listing, as returned to the caller.
/// `size` is absent for directories; `editable` is a placeholder populated
/// by the (currently allow-all) per-entry policy.
pub struct File {
    pub name: String,
    pub size: Option<u64>,
    pub modified: u64,
    pub editable: bool,
    pub directory: bool,
}

/// The raw facts about one directory entry, as read from the filesystem:
/// its name, whether it is a directory, its byte length, and its
/// modification time in seconds since the epoch (`None` when no duration
/// since the epoch could be derived).
pub struct DirEntryInfo {
    pub name: String,
    pub directory: bool,
    pub size: u64,
    pub modified: Option<u64>,
}

/// The response envelope of the listing operation.
pub struct Response {
    pub success: bool,
    pub message: String,
    pub files: Option<Vec<File>>,
}

/// The listing entry derived from one raw directory entry: directories get
/// no size, a missing modification time degrades to zero, and every entry
/// is currently marked editable.
pub open spec fn entry_file(e: DirEntryInfo) -> File {
    File {
        name: e.name,
        size: if e.directory {
            None
        } else {
            Some(e.size)
        },
        modified: if e.modified is Some {
            e.modified->0
        } else {
            0
        },
        editable: true,
        directory: e.directory,
    }
}

/// The listing order: directories strictly before files; within one kind,
/// names compare case-insensitively (by their lowercase forms).
pub open spec fn file_cmp(a: File, b: File) -> Ordering {
    if a.directory && !b.directory {
        Ordering::Less
    } else if !a.directory && b.directory {
        Ordering::Greater
    } else {
        lex_cmp(lower_of(a.name@), lower_of(b.name@))
    }
}

/// The non-strict version of the listing order.
pub open spec fn file_le(a: File, b: File) -> bool {
    file_cmp(a, b) != Ordering::Greater
}

/// The listing order as a relation, for `sorted_by`.
pub open spec fn file_order() -> spec_fn(File, File) -> bool {
    |a: File, b: File| file_le(a, b)
}

/// Comparing two entries in the other direction reverses the answer.
pub proof fn lemma_file_cmp_antisym(a: File, b: File)
    ensures
        file_cmp(a, b) == Ordering::Less <==> file_cmp(b, a) == Ordering::Greater,
        file_cmp(a, b) == Ordering::Equal <==> file_cmp(b, a) == Ordering::Equal,
{
    lemma_lex_cmp_antisym(lower_of(a.name@), lower_of(b.name@), 0);
    lemma_lex_cmp_antisym(lower_of(b.name@), lower_of(a.name@), 0);
}

/// The listing order is total: any two entries compare one way or the other.
pub proof fn lemma_file_le_connected(a: File, b: File)
    ensures
        file_le(a, b) || file_le(b, a),
{
    lemma_file_cmp_antisym(a, b);
}

/// The listing order is transitive.
pub proof fn lemma_file_le_trans(a: File, b: File, c: File)
    requires
        file_le(a, b),
        file_le(b, c),
    ensures
        file_le(a, c),
{
    if a.directory == b.directory && b.directory == c.directory {
        lemma_lex_le_trans(lower_of(a.name@), lower_of(b.name@), lower_of(c.name@), 0);
    }
}

/// The comparator of the listing order.
pub fn _sort(a: &File, b: &File) -> (r: Ordering)
    ensures
        r == file_cmp(*a, *b),
{
    if a.directory && !b.directory {
        Ordering::Less
    } else if !a.directory && b.directory {
        Ordering::Greater
    } else {
        let la = to_lowercase(a.name.as_str());
        let lb = to_lowercase(b.name.as_str());
        let va = chars_of(la.as_str());
        let vb = chars_of(lb.as_str());
        lex_cmp_vec(&va, &vb)
    }
}

/// Sorts listing entries into the listing order. The result holds exactly
/// the given entries (as a multiset) and is sorted: directories first, then
/// files, each group in case-insensitive name order.
pub fn sort_files(files: Vec<File>) -> (r: Vec<File>)
    ensures
        sorted_by(r@, file_order()),
        r@.to_multiset() == files@.to_multiset(),
        r@.len() == files@.len(),
{
    broadcast use vstd::seq_lib::group_to_multiset_ensures;
    broadcast use vstd::multiset::group_multiset_axioms;

    let mut rem = files;
    let ghost all = rem@;
    let mut out: Vec<File> = Vec::new();
    while rem.len() > 0
        invariant
            sorted_by(out@, file_order()),
            out@.to_multiset().add(rem@.to_multiset()) == all.to_multiset(),
            out@.len() + rem@.len() == all.len(),
            forall|i: int, j: int|
                0 <= i < out@.len() && 0 <= j < rem@.len() ==> file_le(
                    #[trigger] out@[i],
                    #[trigger] rem@[j],
                ),
        decreases rem.len(),
    {
        let mut m: usize = 0;
        let mut k: usize = 1;
        proof {
            lemma_file_le_connected(rem@[0], rem@[0]);
        }
        while k < rem.len()
            invariant
                0 < rem@.len(),
                m < k <= rem@.len(),
                forall|t: int| 0 <= t < k ==> file_le(rem@[m as int], #[trigger] rem@[t]),
            decreases rem.len() - k,
        {
            let c = _sort(&rem[k], &rem[m]);
            match c {
                Ordering::Less => {
                    proof {
                        lemma_file_cmp_antisym(rem@[k as int], rem@[m as int]);
                        assert forall|t: int| 0 <= t < k + 1 implies file_le(
                            rem@[k as int],
                            #[trigger] rem@[t],
                        ) by {
                            if t < k {
                                lemma_file_le_trans(rem@[k as int], rem@[m as int], rem@[t]);
                            } else {
                                lemma_file_le_connected(rem@[k as int], rem@[k as int]);
                            }
                        }
                    }
                    m = k;
                },
                _ => {
                    proof {
                        lemma_file_cmp_antisym(rem@[m as int], rem@[k as int]);
                    }
                },
            }
            k = k + 1;
        }
        let ghost old_out = out@;
        let ghost old_rem = rem@;
        let ghost v = rem@[m as int];
        let x = rem.remove(m);
        proof {
            assert(old_rem.contains(v)) by {
                assert(old_rem[m as int] == v);
            }
            vstd::seq_lib::to_multiset_contains(old_rem, v);
            vstd::seq_lib::to_multiset_remove(old_rem, m as int);
            assert(rem@.to_multiset() == old_rem.to_multiset().remove(v));
        }
        out.push(x);
        proof {
            vstd::seq_lib::to_multiset_build(old_out, v);
            assert(out@ == old_out.push(v));
            assert(out@.to_multiset() == old_out.to_multiset().insert(v));
            assert(out@.to_multiset().add(rem@.to_multiset()) =~= all.to_multiset());
            assert forall|i: int, j: int|
                0 <= i < j < out@.len() implies file_order()(#[trigger] out@[i], #[trigger] out@[j]) by {
                if j < out@.len() - 1 {
                    assert(sorted_by(old_out, file_order()));
                    assert(file_order()(old_out[i], old_out[j]));
                }
            }
            assert forall|i: int, j: int|
                0 <= i < out@.len() && 0 <= j < rem@.len() implies file_le(
                #[trigger] out@[i],
                #[trigger] rem@[j],
            ) by {
                let jj = if j < m { j } else { j + 1 };
                assert(rem@[j] == old_rem[jj]);
                if i < out@.len() - 1 {
                    assert(file_le(old_out[i], old_rem[jj]));
                } else {
                    assert(file_le(old_rem[m as int], old_rem[jj]));
                }
            }
        }
    }
    proof {
        assert(rem@.to_multiset().len() == 0);
        assert(rem@.to_multiset() =~= Multiset::empty());
        assert(out@.to_multiset() =~= all.to_multiset());
    }
    out
}

/// Builds the listing returned for a directory's raw entries: derives each
/// entry's presentation and sorts them into the listing order. An empty
/// directory yields an empty listing.
pub fn _get_files(entries: Vec<DirEntryInfo>) -> (r: Vec<File>)
    ensures
        sorted_by(r@, file_order()),
        r@.to_multiset() == entries@.map_values(|e: DirEntryInfo| entry_file(e)).to_multiset(),
        r@.len() == entries@.len(),
{
    let mut files: Vec<File> = Vec::new();
    let mut i: usize = 0;
    while i < entries.len()
        invariant
            i <= entries.len(),
            files@ == entries@.subrange(0, i as int).map_values(
                (|e: DirEntryInfo| entry_file(e)),
            ),
        decreases entries.len() - i,
    {
        let e = &entries[i];
        let modified: u64 = match e.modified {
            Some(mo) => mo,
            None => 0,
        };
        let size: Option<u64> = if e.directory {
            None
        } else {
            Some(e.size)
        };
        files.push(
            File {
                name: e.name.clone(),
                size,
                modified,
                editable: true,
                directory: e.directory,
            },
        );
        proof {
            assert(files@ =~= entries@.subrange(0, i + 1 as int).map_values(
                (|e: DirEntryInfo| entry_file(e)),
            ));
        }
        i = i + 1;
    }
    proof {
        assert(entries@.subrange(0, entries@.len() as int) =~= entries@);
    }
    sort_files(files)
}

/// The message key answering a listing outcome.
pub open spec fn list_directory_key(readable: bool) -> Seq<char> {
    if readable {
        "list-directory-success"@
    } else {
        "list-directory-error"@
    }
}

/// The envelope answering a listing request, given the raw entries read
/// from the directory, or `None` when the directory could not be read as a
/// whole. Success answers HTTP 200 with the derived, ordered listing;
/// failure answers HTTP 400 with no listing. The message for the outcome's
/// key is rendered under the original relative directory string as the
/// `directory` argument.
pub fn list_directory(
    localizer: &LocalizerState,
    language: &str,
    directory: &String,
    entries: Option<Vec<DirEntryInfo>>,
) -> (r: (u16, Response))
    ensures
        r.0 == 200 <==> entries is Some,
        r.0 == 200 || r.0 == 400,
        r.1.success <==> entries is Some,
        r.1.files is Some <==> entries is Some,
        entries matches Some(e) ==> (r.1.files matches Some(fs) && sorted_by(fs@, file_order())
            && fs@.to_multiset() == e@.map_values(|en: DirEntryInfo| entry_file(en)).to_multiset()
            && fs@.len() == e@.len()),
        r.1.message@ == message_spec(
            localizer.locales@,
            localizer.fallback_language@,
            language@,
            list_directory_key(entries is Some),
            Map::<Seq<char>, Seq<char>>::empty().insert("directory"@, directory@),
        ),
{
    let mut args: Vec<(String, String)> = Vec::new();
    args.push(("directory".to_owned(), directory.clone()));
    proof {
        let s = pairs_of(args@);
        assert(s =~= seq![("directory"@, directory@)]);
        assert(s.drop_first() =~= Seq::<(Seq<char>, Seq<char>)>::empty());
        assert(pairs_map(s.drop_first()) =~= Map::<Seq<char>, Seq<char>>::empty());
        assert(args_map(args@) =~= Map::<Seq<char>, Seq<char>>::empty().insert(
            "directory"@,
            directory@,
        ));
    }
    match entries {
        Some(e) => {
            let files = _get_files(e);
            let message = localizer.get_message(language, "list-directory-success", &args);
            (200, Response { success: true, message, files: Some(files) })
        },
        None => {
            let message = localizer.get_message(language, "list-directory-error", &args);
            (400, Response { success: false, message, files: None })
        },
    }
}

} // verus!
