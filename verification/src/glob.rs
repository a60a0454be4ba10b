//! File masks with `*` and `?`.

use crate::text;
use vstd::prelude::*;

verus! {

/// Whether a name fits a mask: `*` stands for any text, `?` for any one character, every
/// other character for itself.
pub open spec fn fits(mask: Seq<char>, name: Seq<char>) -> bool
    decreases mask.len(),
{
    if mask.len() == 0 {
        name.len() == 0
    } else if mask.last() == '*' {
        exists|k: int| 0 <= k <= name.len() && fits(mask.drop_last(), #[trigger] name.take(k))
    } else {
        name.len() > 0 && (mask.last() == '?' || mask.last() == name.last()) && fits(
            mask.drop_last(),
            name.drop_last(),
        )
    }
}

/// Whether a mask holds no wildcard.
pub open spec fn is_plain(mask: Seq<char>) -> bool {
    forall|i: int| 0 <= i < mask.len() ==> #[trigger] mask[i] != '*' && mask[i] != '?'
}

// ---------------------------------------------------------------------------
// Laws
// ---------------------------------------------------------------------------

/// The mask `*` fits every name.
pub proof fn star_fits_all(name: Seq<char>)
    ensures
        fits(seq!['*'], name),
{
    assert(seq!['*'].drop_last() == Seq::<char>::empty());
    assert(fits(seq!['*'].drop_last(), name.take(0)));
}

/// A mask without wildcards fits its own text and nothing else.
pub proof fn plain_fits_itself(mask: Seq<char>, name: Seq<char>)
    requires
        is_plain(mask),
    ensures
        fits(mask, name) <==> mask == name,
    decreases mask.len(),
{
    if mask.len() == 0 {
        assert(name.len() == 0 ==> mask == name);
    } else {
        assert(mask[mask.len() - 1] != '*' && mask[mask.len() - 1] != '?');
        assert forall|i: int| 0 <= i < mask.drop_last().len() implies #[trigger] mask.drop_last()[i]
            != '*' && mask.drop_last()[i] != '?' by {
            assert(mask.drop_last()[i] == mask[i]);
        }
        if name.len() > 0 {
            plain_fits_itself(mask.drop_last(), name.drop_last());
            if mask.drop_last() == name.drop_last() && mask.last() == name.last() {
                assert(mask == mask.drop_last().push(mask.last()));
                assert(name == name.drop_last().push(name.last()));
            }
        }
    }
}

/// A star in front of a plain ending, as in `*.mkv`, fits the names that end so.
pub proof fn star_fits_ending(ending: Seq<char>, name: Seq<char>)
    requires
        is_plain(ending),
    ensures
        fits(seq!['*'] + ending, name) <==> text::ends_with(name, ending),
    decreases ending.len(),
{
    let mask = seq!['*'] + ending;
    if ending.len() == 0 {
        assert(mask == seq!['*']);
        star_fits_all(name);
        assert(name.subrange(name.len() as int, name.len() as int) == ending);
    } else {
        assert(mask.last() == ending.last());
        assert(ending[ending.len() - 1] != '*' && ending[ending.len() - 1] != '?');
        assert(mask.drop_last() == seq!['*'] + ending.drop_last());
        assert forall|i: int| 0 <= i < ending.drop_last().len() implies #[trigger] ending.drop_last()[i]
            != '*' && ending.drop_last()[i] != '?' by {
            assert(ending.drop_last()[i] == ending[i]);
        }
        if name.len() > 0 {
            star_fits_ending(ending.drop_last(), name.drop_last());
            let n = name.len() as int;
            let e = ending.len() as int;
            if e <= n {
                let tail = name.subrange(n - e, n);
                assert(tail.drop_last() == name.drop_last().subrange(n - e, n - 1));
                if tail.drop_last() == ending.drop_last() && tail.last() == ending.last() {
                    assert(tail == tail.drop_last().push(tail.last()));
                    assert(ending == ending.drop_last().push(ending.last()));
                }
            }
        }
    }
}

/// A question mark fits any one character.
pub proof fn question_fits_one(mask: Seq<char>, name: Seq<char>, c: char)
    ensures
        fits(mask.push('?'), name.push(c)) <==> fits(mask, name),
{
    assert(mask.push('?').drop_last() == mask);
    assert(name.push(c).drop_last() == name);
}

/// One step of the table for a star: it takes nothing, or one more character.
proof fn lemma_star_step(mask: Seq<char>, name: Seq<char>, j: int)
    requires
        mask.len() > 0,
        mask.last() == '*',
        0 <= j <= name.len(),
    ensures
        fits(mask, name.take(j)) == (fits(mask.drop_last(), name.take(j)) || (j > 0 && fits(
            mask,
            name.take(j - 1),
        ))),
{
    let front = mask.drop_last();
    let here = name.take(j);
    assert(here.take(j) == here);
    if fits(front, here) {
        assert(fits(front, here.take(j)));
    }
    if j > 0 && fits(mask, name.take(j - 1)) {
        let k = choose|k: int| 0 <= k <= j - 1 && fits(front, #[trigger] name.take(j - 1).take(k));
        assert(name.take(j - 1).take(k) == here.take(k));
        assert(fits(front, here.take(k)));
    }
    if fits(mask, here) {
        let k = choose|k: int| 0 <= k <= here.len() && fits(front, #[trigger] here.take(k));
        if k < j {
            assert(name.take(j - 1).take(k) == here.take(k));
            assert(fits(front, name.take(j - 1).take(k)));
        }
    }
}

// ---------------------------------------------------------------------------
// Matching
// ---------------------------------------------------------------------------

/// Whether a name fits a mask. Both are taken as they are: for a match that does not tell
/// upper case from lower case, the caller lowers both.
pub fn glob_match(pattern: &str, name: &str) -> (r: bool)
    ensures
        r == fits(pattern@, name@),
{
    let p = text::chars_of(pattern);
    let n = text::chars_of(name);
    let mut row: Vec<bool> = Vec::new();
    row.push(true);
    let mut j: usize = 0;
    assert(p@.take(0).len() == 0);
    while j < n.len()
        invariant
            j <= n.len(),
            row.len() == j + 1,
            n@ == name@,
            p@.take(0).len() == 0,
            forall|k: int| 0 <= k <= j ==> row[k] == fits(p@.take(0), #[trigger] n@.take(k)),
        decreases n.len() - j,
    {
        row.push(false);
        j += 1;
    }
    let mut i: usize = 0;
    while i < p.len()
        invariant
            i <= p.len(),
            p@ == pattern@,
            n@ == name@,
            row.len() == n.len() + 1,
            forall|k: int|
                0 <= k <= n.len() ==> row[k] == fits(p@.take(i as int), #[trigger] n@.take(k)),
        decreases p.len() - i,
    {
        let c = p[i];
        let ghost mask = p@.take(i + 1);
        proof {
            assert(mask.drop_last() == p@.take(i as int));
            assert(mask.last() == c);
        }
        let mut next: Vec<bool> = Vec::new();
        let first = c == '*' && row[0];
        proof {
            if c == '*' {
                lemma_star_step(mask, n@, 0);
            }
            assert(n@.take(0).len() == 0);
        }
        next.push(first);
        let mut j: usize = 0;
        while j < n.len()
            invariant
                j <= n.len(),
                n@ == name@,
                row.len() == n.len() + 1,
                next.len() == j + 1,
                mask.len() > 0,
                mask.last() == c,
                forall|k: int|
                    0 <= k <= n.len() ==> row[k] == fits(mask.drop_last(), #[trigger] n@.take(k)),
                forall|k: int| 0 <= k <= j ==> next[k] == fits(mask, #[trigger] n@.take(k)),
            decreases n.len() - j,
        {
            let fit = if c == '*' {
                proof {
                    lemma_star_step(mask, n@, j + 1);
                }
                row[j + 1] || next[j]
            } else {
                proof {
                    let here = n@.take(j + 1);
                    assert(here.drop_last() == n@.take(j as int));
                    assert(here.last() == n@[j as int]);
                }
                (c == '?' || c == n[j]) && row[j]
            };
            next.push(fit);
            j += 1;
        }
        row = next;
        i += 1;
    }
    assert(p@.take(p.len() as int) == p@);
    assert(n@.take(n.len() as int) == n@);
    row[n.len()]
}

proof fn lemma_join(a: Seq<char>, b: Seq<char>, name: Seq<char>)
    ensures
        fits(a + b, name) <==> exists|k: int|
            0 <= k <= name.len() && fits(a, #[trigger] name.take(k)) && fits(b, name.skip(k)),
    decreases b.len(),
{
    let ab = a + b;
    if b.len() == 0 {
        assert(ab =~= a);
        assert(name.take(name.len() as int) =~= name);
        assert(name.skip(name.len() as int).len() == 0);
        if exists|k: int|
            0 <= k <= name.len() && fits(a, #[trigger] name.take(k)) && fits(b, name.skip(k)) {
            let k = choose|k: int|
                0 <= k <= name.len() && fits(a, #[trigger] name.take(k)) && fits(b, name.skip(k));
            assert(k == name.len());
        }
    } else {
        let b2 = b.drop_last();
        assert(ab.drop_last() =~= a + b2);
        assert(ab.last() == b.last());
        if b.last() == '*' {
            if fits(ab, name) {
                let j = choose|j: int|
                    0 <= j <= name.len() && fits(ab.drop_last(), #[trigger] name.take(j));
                lemma_join(a, b2, name.take(j));
                let k = choose|k: int|
                    0 <= k <= j && fits(a, #[trigger] name.take(j).take(k)) && fits(
                        b2,
                        name.take(j).skip(k),
                    );
                assert(name.take(j).take(k) =~= name.take(k));
                assert(name.skip(k).take(j - k) =~= name.take(j).skip(k));
                assert(fits(b, name.skip(k)));
            }
            if exists|k: int|
                0 <= k <= name.len() && fits(a, #[trigger] name.take(k)) && fits(b, name.skip(k)) {
                let k = choose|k: int|
                    0 <= k <= name.len() && fits(a, #[trigger] name.take(k)) && fits(
                        b,
                        name.skip(k),
                    );
                let j = choose|j: int|
                    0 <= j <= name.skip(k).len() && fits(b2, #[trigger] name.skip(k).take(j));
                let whole = name.take(k + j);
                assert(whole.take(k) =~= name.take(k));
                assert(whole.skip(k) =~= name.skip(k).take(j));
                lemma_join(a, b2, whole);
                assert(fits(ab.drop_last(), name.take(k + j)));
            }
        } else {
            if fits(ab, name) {
                let short = name.drop_last();
                lemma_join(a, b2, short);
                let k = choose|k: int|
                    0 <= k <= short.len() && fits(a, #[trigger] short.take(k)) && fits(
                        b2,
                        short.skip(k),
                    );
                assert(short.take(k) =~= name.take(k));
                assert(name.skip(k).drop_last() =~= short.skip(k));
                assert(name.skip(k).last() == name.last());
                assert(fits(b, name.skip(k)));
            }
            if exists|k: int|
                0 <= k <= name.len() && fits(a, #[trigger] name.take(k)) && fits(b, name.skip(k)) {
                let k = choose|k: int|
                    0 <= k <= name.len() && fits(a, #[trigger] name.take(k)) && fits(
                        b,
                        name.skip(k),
                    );
                let short = name.drop_last();
                assert(name.skip(k).len() > 0);
                assert(short.take(k) =~= name.take(k));
                assert(name.skip(k).drop_last() =~= short.skip(k));
                lemma_join(a, b2, short);
                assert(fits(ab.drop_last(), short));
            }
        }
    }
}

/// A mask of two parts fits a name exactly where the name has two parts that they fit.
pub proof fn mask_part_by_part(a: Seq<char>, b: Seq<char>, name: Seq<char>)
    ensures
        fits(a + b, name) <==> exists|k: int|
            0 <= k <= name.len() && fits(a, #[trigger] name.take(k)) && fits(b, name.skip(k)),
{
    lemma_join(a, b, name);
}

/// An empty mask fits the empty name alone, a star anything, a question mark any one character,
/// any other character itself alone.
pub proof fn mask_of_one(c: char, name: Seq<char>)
    ensures
        fits(Seq::<char>::empty(), name) <==> name.len() == 0,
        fits(seq!['*'], name),
        fits(seq!['?'], name) <==> name.len() == 1,
        c != '*' && c != '?' ==> (fits(seq![c], name) <==> name == seq![c]),
{
    reveal_with_fuel(fits, 2);
    star_fits_all(name);
    let e = Seq::<char>::empty();
    assert(seq!['?'].drop_last() =~= e);
    assert(seq![c].drop_last() =~= e);
    if name.len() == 1 {
        assert(name.drop_last() =~= e);
        assert(name =~= seq![name[0]]);
        assert(fits(e, name.drop_last()));
    }
    if name == seq![c] {
        assert(name.drop_last() =~= e);
    }
    if c != '*' && c != '?' && fits(seq![c], name) {
        assert(name.drop_last().len() == 0);
        assert(name =~= seq![c]);
    }
}

/// A star between two plain texts fits the names that begin with the one and end with the other
/// behind it.
pub proof fn star_in_the_middle(a: Seq<char>, b: Seq<char>, middle: Seq<char>)
    requires
        is_plain(a),
        is_plain(b),
    ensures
        fits(a + seq!['*'] + b, a + middle + b),
{
    let name = a + middle + b;
    let k = a.len() as int;
    let m = k + middle.len();
    plain_fits_itself(a, a);
    plain_fits_itself(b, b);
    star_fits_all(middle);
    let front = a + middle;
    assert(front.take(k) =~= a);
    assert(front.skip(k) =~= middle);
    mask_part_by_part(a, seq!['*'], front);
    assert(fits(a + seq!['*'], front));
    assert(name.take(m) =~= front);
    assert(name.skip(m) =~= b);
    mask_part_by_part(a + seq!['*'], b, name);
}

} // verus!
