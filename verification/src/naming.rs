//! Output names: where a compressed image goes, and which name is tried
//! next when that one is taken.

use crate::format::{extension_of_tag, output_extension};
use crate::text::{
    decimal, find_last, last_index_of, lemma_decimal_injective, lemma_decimal_round_trip,
    lemma_last_index_of, push_char, push_decimal, str_eq,
};
use vstd::prelude::*;

verus! {

/// A file name parted at its last dot into stem and extension. A name
/// without a dot, or whose only dot is its first character, has no
/// extension and is its own stem.
pub open spec fn split_extension(name: Seq<char>) -> (Seq<char>, Option<Seq<char>>) {
    match last_index_of(name, '.') {
        Some(k) => if k > 0 {
            (name.take(k), Some(name.skip(k + 1)))
        } else {
            (name, None)
        },
        None => (name, None),
    }
}

/// The name that the compressed copy of a file with the given stem gets:
/// `{stem}-compressed.{ext}`, the extension being that of the format tag.
pub open spec fn compressed_name(stem: Seq<char>, tag: Seq<char>) -> Seq<char> {
    stem + "-compressed."@ + extension_of_tag(tag)
}

/// A name with `-{n}` put before its extension.
pub open spec fn numbered_name(stem: Seq<char>, ext: Option<Seq<char>>, n: nat) -> Seq<char> {
    match ext {
        Some(e) => stem + seq!['-'] + decimal(n) + seq!['.'] + e,
        None => stem + seq!['-'] + decimal(n),
    }
}

/// The `n`-th name tried for a desired name: the name itself first, then
/// the name with `-1`, `-2`, ... before its extension.
pub open spec fn candidate_name(name: Seq<char>, n: nat) -> Seq<char> {
    if n == 0 {
        name
    } else {
        numbered_name(split_extension(name).0, split_extension(name).1, n)
    }
}

/// The number of the candidate that a resolver settles on when it tries
/// the candidates from `from` on in order and stops at the first that is
/// not taken, or at `limit`.
pub open spec fn first_free(name: Seq<char>, taken: Set<Seq<char>>, from: nat, limit: nat) -> nat
    decreases limit - from,
{
    if from >= limit || !taken.contains(candidate_name(name, from)) {
        from
    } else {
        first_free(name, taken, from + 1, limit)
    }
}

/// A name with an extension is its stem, a dot and the extension.
pub proof fn lemma_split_extension(name: Seq<char>)
    ensures
        match split_extension(name).1 {
            Some(e) => name == split_extension(name).0 + seq!['.'] + e && split_extension(
                name,
            ).0.len() >= 1,
            None => name == split_extension(name).0,
        },
{
    lemma_last_index_of(name, '.');
    match last_index_of(name, '.') {
        Some(k) => {
            if k > 0 {
                assert(name =~= name.take(k) + seq!['.'] + name.skip(k + 1));
            }
        },
        None => {},
    }
}

/// Parting `{stem}.{ext}` gives `stem` and `ext` back when `ext` holds no
/// dot and `stem` is not empty.
pub proof fn lemma_split_joined(stem: Seq<char>, ext: Seq<char>)
    requires
        stem.len() >= 1,
        forall|i: int| 0 <= i < ext.len() ==> ext[i] != '.',
    ensures
        split_extension(stem + seq!['.'] + ext) == (stem, Some(ext)),
{
    let name = stem + seq!['.'] + ext;
    let k = stem.len() as int;
    assert(name[k] == '.');
    assert forall|j: int| k < j < name.len() implies name[j] != '.' by {
        assert(name[j] == ext[j - k - 1]);
    }
    crate::text::lemma_last_index_of_unique(name, '.', k);
    assert(name.take(k) =~= stem);
    assert(name.skip(k + 1) =~= ext);
}

/// The candidates for the name of a compressed copy are
/// `{stem}-compressed.{ext}`, `{stem}-compressed-1.{ext}`,
/// `{stem}-compressed-2.{ext}`, ..., where the extension holds no dot.
pub proof fn lemma_numbered_output_name(stem: Seq<char>, tag: Seq<char>, n: nat)
    requires
        forall|i: int| 0 <= i < extension_of_tag(tag).len() ==> extension_of_tag(tag)[i] != '.',
    ensures
        candidate_name(compressed_name(stem, tag), 0) == stem + "-compressed."@ + extension_of_tag(
            tag,
        ),
        n >= 1 ==> candidate_name(compressed_name(stem, tag), n) == stem + "-compressed-"@
            + decimal(n) + "."@ + extension_of_tag(tag),
{
    reveal_strlit("-compressed.");
    reveal_strlit("-compressed-");
    reveal_strlit("-compressed");
    reveal_strlit(".");
    let ext = extension_of_tag(tag);
    let base = stem + "-compressed"@;
    assert(compressed_name(stem, tag) =~= base + seq!['.'] + ext);
    lemma_split_joined(base, ext);
    if n >= 1 {
        assert(base + seq!['-'] + decimal(n) + seq!['.'] + ext =~= stem + "-compressed-"@ + decimal(
            n,
        ) + "."@ + ext);
    }
}

/// No two candidates for one name are the same: a suffix is never used
/// twice.
pub proof fn lemma_candidates_distinct(name: Seq<char>, i: nat, j: nat)
    requires
        i != j,
    ensures
        candidate_name(name, i) != candidate_name(name, j),
{
    if i == 0 {
        lemma_plain_differs_from_numbered(name, j);
    } else if j == 0 {
        lemma_plain_differs_from_numbered(name, i);
    } else {
        let stem = split_extension(name).0;
        let ext = split_extension(name).1;
        let a = numbered_name(stem, ext, i);
        let b = numbered_name(stem, ext, j);
        if a == b {
            lemma_decimal_round_trip(i);
            lemma_decimal_round_trip(j);
            let head = stem + seq!['-'];
            let tail = match ext {
                Some(e) => seq!['.'] + e,
                None => Seq::<char>::empty(),
            };
            assert(a =~= head + decimal(i) + tail);
            assert(b =~= head + decimal(j) + tail);
            assert(decimal(i).len() == decimal(j).len()) by {
                assert(a.len() == head.len() + decimal(i).len() + tail.len());
                assert(b.len() == head.len() + decimal(j).len() + tail.len());
            }
            assert forall|p: int| 0 <= p < decimal(i).len() implies decimal(i)[p] == decimal(j)[p] by {
                assert(a[head.len() + p] == decimal(i)[p]);
                assert(b[head.len() + p] == decimal(j)[p]);
            }
            assert(decimal(i) =~= decimal(j));
            lemma_decimal_injective(i, j);
        }
    }
}

proof fn lemma_plain_differs_from_numbered(name: Seq<char>, n: nat)
    requires
        n >= 1,
    ensures
        candidate_name(name, 0) != candidate_name(name, n),
{
    let stem = split_extension(name).0;
    let ext = split_extension(name).1;
    let numbered = numbered_name(stem, ext, n);
    lemma_split_extension(name);
    lemma_decimal_round_trip(n);
    match ext {
        Some(e) => {
            let k = stem.len() as int;
            assert(name[k] == '.');
            assert(numbered[k] == '-');
        },
        None => {
            assert(numbered.len() == stem.len() + 1 + decimal(n).len());
        },
    }
}

/// Where the first `n` candidates are taken and the next one is not, the
/// resolver settles on candidate `n`: it skips no suffix and reuses none.
pub proof fn lemma_first_free_counts_taken(
    name: Seq<char>,
    taken: Set<Seq<char>>,
    n: nat,
    limit: nat,
)
    requires
        n <= limit,
        forall|j: nat| j < n ==> taken.contains(#[trigger] candidate_name(name, j)),
        !taken.contains(candidate_name(name, n)),
    ensures
        first_free(name, taken, 0, limit) == n,
{
    lemma_first_free_from(name, taken, 0, n, limit);
}

proof fn lemma_first_free_from(
    name: Seq<char>,
    taken: Set<Seq<char>>,
    from: nat,
    n: nat,
    limit: nat,
)
    requires
        from <= n <= limit,
        forall|j: nat| j < n ==> taken.contains(#[trigger] candidate_name(name, j)),
        !taken.contains(candidate_name(name, n)),
    ensures
        first_free(name, taken, from, limit) == n,
    decreases n - from,
{
    if from < n {
        assert(taken.contains(candidate_name(name, from)));
        lemma_first_free_from(name, taken, from + 1, n, limit);
    }
}

/// What the resolver settles on below its limit is not taken, and every
/// candidate before it is.
pub proof fn lemma_first_free_is_free(
    name: Seq<char>,
    taken: Set<Seq<char>>,
    from: nat,
    limit: nat,
)
    requires
        from <= limit,
    ensures
        from <= first_free(name, taken, from, limit) <= limit,
        first_free(name, taken, from, limit) < limit ==> !taken.contains(
            candidate_name(name, first_free(name, taken, from, limit)),
        ),
        forall|j: nat|
            from <= j < first_free(name, taken, from, limit) ==> taken.contains(
                #[trigger] candidate_name(name, j),
            ),
    decreases limit - from,
{
    if from >= limit || !taken.contains(candidate_name(name, from)) {
    } else {
        lemma_first_free_is_free(name, taken, from + 1, limit);
    }
}

/// The names that a listing holds.
pub open spec fn listed_names(listing: Seq<String>) -> Set<Seq<char>> {
    Set::new(|s: Seq<char>| exists|i: int| 0 <= i < listing.len() && listing[i]@ == s)
}

/// A listing that holds the first `m` candidates for a name has at least
/// `m` entries, for no two candidates are the same.
pub proof fn lemma_taken_candidates_bound(name: Seq<char>, listing: Seq<Seq<char>>, m: nat)
    requires
        forall|j: nat| j < m ==> listing.contains(#[trigger] candidate_name(name, j)),
    ensures
        m <= listing.len(),
    decreases m,
{
    if m > 0 {
        let last = candidate_name(name, (m - 1) as nat);
        assert(listing.contains(last));
        let i = choose|i: int| 0 <= i < listing.len() && listing[i] == last;
        let rest = listing.remove(i);
        assert forall|j: nat| j < m - 1 implies rest.contains(
            #[trigger] candidate_name(name, j),
        ) by {
            let c = candidate_name(name, j);
            lemma_candidates_distinct(name, j, (m - 1) as nat);
            assert(listing.contains(c));
            let p = choose|p: int| 0 <= p < listing.len() && listing[p] == c;
            if p < i {
                assert(rest[p] == c);
            } else {
                assert(rest[p - 1] == c);
            }
        }
        lemma_taken_candidates_bound(name, rest, (m - 1) as nat);
    }
}

/// Whether a listing holds a name.
fn is_listed(listing: &Vec<String>, name: &str) -> (found: bool)
    ensures
        found == listed_names(listing@).contains(name@),
{
    let mut i: usize = 0;
    while i < listing.len()
        invariant
            i <= listing.len(),
            forall|j: int| 0 <= j < i ==> listing[j]@ != name@,
        decreases listing.len() - i,
    {
        if str_eq(listing[i].as_str(), name) {
            return true;
        }
        i = i + 1;
    }
    false
}

/// Picks the output name for a desired name, given the names that exist:
/// the desired name if it is free, else the first of `-1`, `-2`, ... put
/// before the extension that is. The name returned is never one of those
/// that exist.
pub fn get_unique_path(name: &str, existing: &Vec<String>) -> (free: String)
    ensures
        free@ == candidate_name(
            name@,
            first_free(name@, listed_names(existing@), 0, existing.len() as nat),
        ),
        !listed_names(existing@).contains(free@),
{
    let ghost taken = listed_names(existing@);
    let ghost listing = existing@.map_values(|s: String| s@);
    let mut namer = UniqueNamer::new(name);
    let mut candidate = namer.candidate();
    while is_listed(existing, candidate.as_str())
        invariant
            taken == listed_names(existing@),
            listing == existing@.map_values(|s: String| s@),
            namer.desired() == name@,
            candidate@ == candidate_name(name@, namer.attempt()),
            namer.attempt() <= existing.len(),
            forall|j: nat| j < namer.attempt() ==> taken.contains(#[trigger] candidate_name(name@, j)),
        decreases existing.len() - namer.attempt(),
    {
        proof {
            let m = namer.attempt() + 1;
            assert forall|j: nat| j < m implies listing.contains(
                #[trigger] candidate_name(name@, j),
            ) by {
                assert(taken.contains(candidate_name(name@, j)));
                let i = choose|i: int| 0 <= i < existing.len() && existing[i]@ == candidate_name(name@, j);
                assert(listing[i] == candidate_name(name@, j));
            }
            lemma_taken_candidates_bound(name@, listing, m);
        }
        let moved = namer.advance();
        assert(moved);
        candidate = namer.candidate();
    }
    proof {
        lemma_first_free_counts_taken(name@, taken, namer.attempt(), existing.len() as nat);
    }
    candidate
}

/// Builds the name of a compressed copy; see [`compressed_name`].
pub fn output_file_name(stem: &str, tag: &str) -> (name: String)
    ensures
        name@ == compressed_name(stem@, tag@),
{
    let mut name = String::from_str(stem);
    name.append("-compressed.");
    let ext = output_extension(tag);
    name.append(ext.as_str());
    name
}

/// Parts a file name at its last dot; see [`split_extension`].
pub fn split_file_name(name: &str) -> (parts: (String, Option<String>))
    ensures
        parts.0@ == split_extension(name@).0,
        match parts.1 {
            Some(e) => split_extension(name@).1 == Some(e@),
            None => split_extension(name@).1 is None,
        },
{
    let len = name.unicode_len();
    match find_last(name, '.') {
        Some(k) => {
            proof {
                lemma_last_index_of(name@, '.');
            }
            if k > 0 {
                let stem = name.substring_char(0, k);
                let ext = name.substring_char(k + 1, len);
                proof {
                    assert(name@.subrange(0, k as int) =~= name@.take(k as int));
                    assert(name@.subrange(k + 1, len as int) =~= name@.skip(k + 1));
                }
                (String::from_str(stem), Some(String::from_str(ext)))
            } else {
                (String::from_str(name), None)
            }
        },
        None => (String::from_str(name), None),
    }
}

/// Builds a numbered name; see [`numbered_name`].
pub fn numbered_file_name(stem: &str, ext: &Option<String>, n: u64) -> (name: String)
    ensures
        name@ == numbered_name(
            stem@,
            match ext {
                Some(e) => Some(e@),
                None => None,
            },
            n as nat,
        ),
{
    let mut name = String::from_str(stem);
    push_char(&mut name, '-');
    push_decimal(&mut name, n);
    match ext {
        Some(e) => {
            push_char(&mut name, '.');
            name.append(e.as_str());
            proof {
                assert(name@ =~= stem@ + seq!['-'] + decimal(n as nat) + seq!['.'] + e@);
            }
        },
        None => {
            proof {
                assert(name@ =~= stem@ + seq!['-'] + decimal(n as nat));
            }
        },
    }
    name
}

/// The names to try for one desired output name, in order.
///
/// The caller asks for the current candidate, looks whether a file of that
/// name exists, and moves on if it does. Whether a file exists is for the
/// caller to find out; which name comes next is decided here.
pub struct UniqueNamer {
    name: String,
    stem: String,
    ext: Option<String>,
    attempt: u64,
}

impl UniqueNamer {
    #[verifier::type_invariant]
    spec fn inv(self) -> bool {
        &&& self.stem@ == split_extension(self.name@).0
        &&& match self.ext {
            Some(e) => split_extension(self.name@).1 == Some(e@),
            None => split_extension(self.name@).1 is None,
        }
    }

    /// The desired name that the candidates derive from.
    pub closed spec fn desired(&self) -> Seq<char> {
        self.name@
    }

    /// How many candidates were found taken so far.
    pub closed spec fn attempt(&self) -> nat {
        self.attempt as nat
    }

    /// Starts with the desired name itself as the candidate.
    pub fn new(name: &str) -> (namer: UniqueNamer)
        ensures
            namer.desired() == name@,
            namer.attempt() == 0,
    {
        let (stem, ext) = split_file_name(name);
        UniqueNamer { name: String::from_str(name), stem, ext, attempt: 0 }
    }

    /// The number of the current candidate.
    pub fn attempts(&self) -> (n: u64)
        ensures
            n == self.attempt(),
    {
        self.attempt
    }

    /// The name to try now; see [`candidate_name`].
    pub fn candidate(&self) -> (name: String)
        ensures
            name@ == candidate_name(self.desired(), self.attempt()),
    {
        proof {
            use_type_invariant(self);
        }
        if self.attempt == 0 {
            self.name.clone()
        } else {
            numbered_file_name(self.stem.as_str(), &self.ext, self.attempt)
        }
    }

    /// Moves on to the next candidate, after the current one was found
    /// taken. Returns `false`, and changes nothing, once the counter is
    /// exhausted.
    pub fn advance(&mut self) -> (moved: bool)
        ensures
            final(self).desired() == old(self).desired(),
            moved <==> old(self).attempt() < u64::MAX,
            moved ==> final(self).attempt() == old(self).attempt() + 1,
            !moved ==> final(self).attempt() == old(self).attempt(),
    {
        proof {
            use_type_invariant(&*self);
        }
        if self.attempt < u64::MAX {
            self.attempt = self.attempt + 1;
            true
        } else {
            false
        }
    }
}

} // verus!
