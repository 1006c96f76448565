//! The structured password generator: three groups of six lowercase letters
//! joined by `-`, with exactly one digit and — in a different group and at a
//! different in-group position — exactly one uppercase letter substituted
//! in. Within a group, no two letters separated only by the substituted
//! digit slot are case-insensitively equal or adjacent in the alphabet; the
//! substituted uppercase letter counts as a letter for this rule, the digit
//! does not.
//!
//! All draws come from the rand crate through two trusted wrappers.
//! Rejection sampling is capped: after a fixed number of redraws a
//! deterministic admissible choice is taken, so generation always
//! terminates and never reports an error.

use crate::chars::fold_lower;
use crate::chars::is_ascii_letter_char;
use crate::chars::spec_is_ascii_letter;
use crate::chars::spec_is_digit;
use crate::chars::spec_is_lowercase;
use crate::chars::spec_is_uppercase;
use crate::chars::unicode_fold_lower;
use rand::seq::IteratorRandom;
use rand::Rng;
use vstd::prelude::*;

verus! {

/// Letters per group.
pub const GROUP_SIZE: usize = 6;

/// Groups per password.
pub const NUM_GROUPS: usize = 3;

/// How many times a rejected draw is retried before the deterministic
/// fallback is taken. Each retry fails with probability well under a half,
/// so the fallback is a defensive cap, not an expected path.
const REDRAW_LIMIT: usize = 64;

/// Relies on rand's thread_rng and Rng::gen_range: an index below `max`,
/// nothing more is promised of the distribution.
#[verifier::external_body]
fn random_index(max: usize) -> (r: usize)
    requires
        max > 0,
    ensures
        r < max,
{
    rand::thread_rng().gen_range(0..max)
}

/// Relies on rand's IteratorRandom::choose: some character of the given
/// non-empty charset.
#[verifier::external_body]
fn get_random_char(charset: &str) -> (c: char)
    requires
        charset@.len() > 0,
    ensures
        charset@.contains(c),
{
    charset.chars().choose(&mut rand::thread_rng()).unwrap()
}

/// Every character of the lowercase charset is an ASCII lowercase letter.
proof fn lemma_lowercase_charset(c: char)
    requires
        "abcdefghijklmnopqrstuvwxyz"@.contains(c),
    ensures
        spec_is_lowercase(c),
{
    reveal_strlit("abcdefghijklmnopqrstuvwxyz");
    let s = "abcdefghijklmnopqrstuvwxyz"@;
    assert(forall|j: int| 0 <= j < 26 ==> spec_is_lowercase(#[trigger] s[j]));
}

/// Every character of the uppercase charset is an ASCII uppercase letter.
proof fn lemma_uppercase_charset(c: char)
    requires
        "ABCDEFGHIJKLMNOPQRSTUVWXYZ"@.contains(c),
    ensures
        spec_is_uppercase(c),
{
    reveal_strlit("ABCDEFGHIJKLMNOPQRSTUVWXYZ");
    let s = "ABCDEFGHIJKLMNOPQRSTUVWXYZ"@;
    assert(forall|j: int| 0 <= j < 26 ==> spec_is_uppercase(#[trigger] s[j]));
}

/// Every character of the digit charset is an ASCII digit.
proof fn lemma_digit_charset(c: char)
    requires
        "0123456789"@.contains(c),
    ensures
        spec_is_digit(c),
{
    reveal_strlit("0123456789");
    let s = "0123456789"@;
    assert(forall|j: int| 0 <= j < 10 ==> spec_is_digit(#[trigger] s[j]));
}

/// Two characters count as forbidden neighbours when both case-fold — by
/// the Unicode lowercase mapping — to ASCII lowercase letters at alphabet
/// distance at most one; the same letter counts too. Anything that folds
/// outside the lowercase alphabet is nobody's neighbour.
pub open spec fn spec_is_consecutive(a: char, b: char) -> bool {
    &&& 97 <= unicode_fold_lower(a) as int <= 122
    &&& 97 <= unicode_fold_lower(b) as int <= 122
    &&& -1 <= unicode_fold_lower(a) as int - unicode_fold_lower(b) as int <= 1
}

/// Are the two characters forbidden neighbours: equal or alphabetically
/// adjacent letters, compared after case folding?
pub fn is_consecutive(a: char, b: char) -> (r: bool)
    ensures
        r == spec_is_consecutive(a, b),
{
    let la = fold_lower(a) as u32;
    let lb = fold_lower(b) as u32;
    if !(97 <= la && la <= 122) || !(97 <= lb && lb <= 122) {
        return false;
    }
    if la >= lb {
        la - lb <= 1
    } else {
        lb - la <= 1
    }
}

/// Is the candidate no forbidden neighbour of the optional constraint?
fn admissible(constraint: Option<char>, candidate: char) -> (r: bool)
    ensures
        r == match constraint {
            Some(x) => !spec_is_consecutive(x, candidate),
            None => true,
        },
{
    match constraint {
        Some(x) => !is_consecutive(x, candidate),
        None => true,
    }
}

/// The slot holds a generated lowercase letter.
pub open spec fn slot_is_lower(o: Option<char>) -> bool {
    match o {
        Some(c) => spec_is_lowercase(c),
        None => false,
    }
}

/// The slot holds a letter of either case. Letters take part in the
/// adjacency rule; the substituted digit slot does not.
pub open spec fn slot_is_letter(o: Option<char>) -> bool {
    match o {
        Some(c) => spec_is_ascii_letter(c),
        None => false,
    }
}

/// The letter of the last letter slot strictly before `i`, if any.
pub open spec fn last_letter_before(g: Seq<Option<char>>, i: int) -> Option<char>
    decreases i,
{
    if i <= 0 {
        None
    } else if slot_is_letter(g[i - 1]) {
        g[i - 1]
    } else {
        last_letter_before(g, i - 1)
    }
}

/// Slot `i` respects the adjacency rule: a letter there is not a forbidden
/// neighbour of the previous letter of the group, a digit slot between the
/// two ignored.
pub open spec fn slot_chain_ok(g: Seq<Option<char>>, i: int) -> bool {
    match (last_letter_before(g, i), g[i]) {
        (Some(a), Some(b)) => spec_is_ascii_letter(b) ==> !spec_is_consecutive(a, b),
        _ => true,
    }
}

/// Every slot of the group respects the adjacency rule.
pub open spec fn group_chain_ok(g: Seq<Option<char>>) -> bool {
    forall|i: int| 0 <= i < g.len() ==> slot_chain_ok(g, i)
}

/// `last_letter_before` reads only the slots before `i`.
proof fn lemma_llb_prefix(g1: Seq<Option<char>>, g2: Seq<Option<char>>, i: int)
    requires
        forall|k: int| 0 <= k < i ==> g1[k] == g2[k],
    ensures
        last_letter_before(g1, i) == last_letter_before(g2, i),
    decreases i,
{
    if i > 0 {
        lemma_llb_prefix(g1, g2, i - 1);
    }
}

/// A lowercase letter that is no forbidden neighbour of either given
/// character, drawn at random; after too many rejected draws the first
/// admissible of `a`, `m` and `z` is taken instead of hanging — the two
/// neighbourhoods can rule out at most two of those three.
fn draw_letter_avoiding(prev: Option<char>, next: Option<char>) -> (c: char)
    ensures
        spec_is_lowercase(c),
        prev matches Some(a) ==> !spec_is_consecutive(a, c),
        next matches Some(b) ==> !spec_is_consecutive(b, c),
{
    let mut attempts: usize = 0;
    while attempts < REDRAW_LIMIT
        decreases REDRAW_LIMIT - attempts,
    {
        proof {
            reveal_strlit("abcdefghijklmnopqrstuvwxyz");
        }
        let c = get_random_char("abcdefghijklmnopqrstuvwxyz");
        proof {
            lemma_lowercase_charset(c);
        }
        if admissible(prev, c) && admissible(next, c) {
            return c;
        }
        attempts = attempts + 1;
    }
    if admissible(prev, 'a') && admissible(next, 'a') {
        'a'
    } else if admissible(prev, 'm') && admissible(next, 'm') {
        'm'
    } else {
        // Pin the folds of the three fallback letters: each neighbourhood
        // that ruled out `a` or `m` lies at least twenty letters below `z`.
        let fold_a = fold_lower('a');
        let fold_m = fold_lower('m');
        let fold_z = fold_lower('z');
        proof {
            assert(fold_a == 'a' && fold_m == 'm' && fold_z == 'z');
        }
        'z'
    }
}

/// An index below `bound` other than `avoid`, drawn at random; after too
/// many rejected draws the next index round-robin is taken.
fn pick_other_index(avoid: usize, bound: usize) -> (r: usize)
    requires
        bound >= 2,
        avoid < bound,
    ensures
        r < bound,
        r != avoid,
{
    let mut attempts: usize = 0;
    while attempts < REDRAW_LIMIT
        invariant
            bound >= 2,
            avoid < bound,
        decreases REDRAW_LIMIT - attempts,
    {
        let candidate = random_index(bound);
        if candidate != avoid {
            return candidate;
        }
        attempts = attempts + 1;
    }
    if avoid + 1 < bound {
        avoid + 1
    } else {
        0
    }
}

/// Fill every empty slot of a group, left to right, with a random lowercase
/// letter that is no forbidden neighbour of the previous letter of the
/// group nor of a substituted letter standing right after it. The at most
/// one substituted slot — the digit or the uppercase letter — is kept;
/// an uppercase letter there joins the adjacency rule, a digit does not.
pub fn generate_virtual_word(group: &mut Vec<Option<char>>)
    requires
        forall|k: int, l: int|
            0 <= k < l < old(group)@.len() ==> !((#[trigger] old(group)@[k]) is Some && (
            #[trigger] old(group)@[l]) is Some),
    ensures
        final(group)@.len() == old(group)@.len(),
        forall|k: int|
            0 <= k < old(group)@.len() && old(group)@[k] is Some ==> final(group)@[k] == old(
                group,
            )@[k],
        forall|k: int| 0 <= k < final(group)@.len() ==> (#[trigger] final(group)@[k]) is Some,
        forall|k: int|
            0 <= k < old(group)@.len() && old(group)@[k] is None ==> slot_is_lower(
                #[trigger] final(group)@[k],
            ),
        group_chain_ok(final(group)@),
{
    let ghost orig = group@;
    let n = group.len();
    let mut last: Option<char> = None;
    let mut i: usize = 0;
    while i < n
        invariant
            n == group@.len(),
            group@.len() == orig.len(),
            i <= n,
            forall|k: int, l: int|
                0 <= k < l < n ==> !((#[trigger] orig[k]) is Some && (#[trigger] orig[l]) is Some),
            forall|k: int| 0 <= k < n && orig[k] is Some ==> group@[k] == orig[k],
            forall|k: int| i <= k < n ==> group@[k] == orig[k],
            forall|k: int| 0 <= k < i ==> (#[trigger] group@[k]) is Some,
            forall|k: int| 0 <= k < i && orig[k] is None ==> slot_is_lower(#[trigger] group@[k]),
            last == last_letter_before(group@, i as int),
            forall|k: int| 0 <= k < i ==> slot_chain_ok(group@, k),
            (i < n && orig[i as int] is Some && slot_is_letter(orig[i as int])) ==> (
            last matches Some(a) ==> !spec_is_consecutive(a, orig[i as int].unwrap())),
        decreases n - i,
    {
        if group[i].is_some() {
            let kept = group[i].unwrap();
            proof {
                assert(group@[i as int] == orig[i as int]);
                assert(slot_chain_ok(group@, i as int));
            }
            if is_ascii_letter_char(kept) {
                last = Some(kept);
            }
            proof {
                assert(last == last_letter_before(group@, i + 1));
            }
            i = i + 1;
        } else {
            let next_slot: Option<char> = if i + 1 < n {
                group[i + 1]
            } else {
                None
            };
            let c = draw_letter_avoiding(last, next_slot);
            let ghost before = group@;
            group.set(i, Some(c));
            proof {
                lemma_llb_prefix(before, group@, i as int);
                assert(slot_chain_ok(group@, i as int));
                assert forall|k: int| 0 <= k < i implies slot_chain_ok(group@, k) by {
                    assert(slot_chain_ok(before, k));
                    lemma_llb_prefix(before, group@, k);
                    assert(group@[k] == before[k]);
                }
                assert(slot_is_letter(group@[i as int]));
                assert(last_letter_before(group@, i + 1) == group@[i as int]);
                if i + 1 < n && orig[i + 1] is Some && slot_is_letter(orig[i + 1]) {
                    assert(!spec_is_consecutive(orig[i + 1].unwrap(), c));
                    assert(!spec_is_consecutive(c, orig[i + 1].unwrap()));
                }
            }
            last = Some(c);
            i = i + 1;
        }
    }
}

/// A group of `GROUP_SIZE` empty slots.
fn empty_group() -> (g: Vec<Option<char>>)
    ensures
        g@.len() == GROUP_SIZE,
        forall|k: int| 0 <= k < g@.len() ==> (#[trigger] g@[k]) is None,
{
    let mut g: Vec<Option<char>> = Vec::new();
    let mut i: usize = 0;
    while i < GROUP_SIZE
        invariant
            i <= GROUP_SIZE,
            g@.len() == i,
            forall|k: int| 0 <= k < i ==> (#[trigger] g@[k]) is None,
        decreases GROUP_SIZE - i,
    {
        g.push(None);
        i = i + 1;
    }
    g
}

/// The characters of a fully filled group, slot by slot.
pub open spec fn unwrap_group(g: Seq<Option<char>>) -> Seq<char> {
    g.map_values(|o: Option<char>| o.unwrap())
}

/// Append the characters of a fully filled group.
fn push_group(out: &mut Vec<char>, group: &Vec<Option<char>>)
    requires
        forall|k: int| 0 <= k < group@.len() ==> (#[trigger] group@[k]) is Some,
    ensures
        final(out)@ == old(out)@ + unwrap_group(group@),
{
    let n = group.len();
    let mut i: usize = 0;
    while i < n
        invariant
            n == group@.len(),
            i <= n,
            forall|k: int| 0 <= k < n ==> (#[trigger] group@[k]) is Some,
            out@ == old(out)@ + unwrap_group(group@).take(i as int),
        decreases n - i,
    {
        let c = group[i].unwrap();
        out.push(c);
        proof {
            assert(out@ =~= old(out)@ + unwrap_group(group@).take(i + 1));
        }
        i = i + 1;
    }
    proof {
        assert(unwrap_group(group@).take(n as int) =~= unwrap_group(group@));
    }
}

/// Relies on String's FromIterator over chars: the collected string holds
/// exactly the characters of the vector, in order.
#[verifier::external_body]
fn chars_to_string(chars: &Vec<char>) -> (r: String)
    ensures
        r@ == chars@,
{
    chars.iter().collect()
}

/// One group of a final password: positions `7g` through `7g + 5`.
pub open spec fn group_of(s: Seq<char>, g: int) -> Seq<char> {
    s.subrange(7 * g, 7 * g + 6)
}

/// The letter at the last letter position strictly before `i`, over the
/// characters of a finished group.
pub open spec fn char_last_letter_before(g: Seq<char>, i: int) -> Option<char>
    decreases i,
{
    if i <= 0 {
        None
    } else if spec_is_ascii_letter(g[i - 1]) {
        Some(g[i - 1])
    } else {
        char_last_letter_before(g, i - 1)
    }
}

/// Position `i` of a finished group respects the adjacency rule.
pub open spec fn char_slot_chain_ok(g: Seq<char>, i: int) -> bool {
    match char_last_letter_before(g, i) {
        Some(a) => spec_is_ascii_letter(g[i]) ==> !spec_is_consecutive(a, g[i]),
        None => true,
    }
}

/// Every position of a finished group respects the adjacency rule: no two
/// letters separated only by non-letter slots are case-insensitively equal
/// or adjacent in the alphabet.
pub open spec fn char_group_chain_ok(g: Seq<char>) -> bool {
    forall|i: int| 0 <= i < g.len() ==> char_slot_chain_ok(g, i)
}

/// The shape of a well-formed password with the digit at in-group position
/// `dp` of group `dg` and the uppercase letter at position `up` of group
/// `ug`: every other group position is a lowercase letter, and each group
/// respects the adjacency rule.
pub open spec fn spec_password_shape(s: Seq<char>, dg: int, dp: int, ug: int, up: int) -> bool {
    &&& 0 <= dg < 3 && 0 <= ug < 3 && dg != ug
    &&& 0 <= dp < 6 && 0 <= up < 6 && dp != up
    &&& spec_is_digit(group_of(s, dg)[dp])
    &&& spec_is_uppercase(group_of(s, ug)[up])
    &&& forall|g: int, k: int|
        0 <= g < 3 && 0 <= k < 6 && !(g == dg && k == dp) && !(g == ug && k == up)
            ==> spec_is_lowercase(#[trigger] group_of(s, g)[k])
    &&& forall|g: int| 0 <= g < 3 ==> char_group_chain_ok(#[trigger] group_of(s, g))
}

/// A well-formed password: twenty characters, three six-letter groups
/// joined by `-`, of the shape above for some choice of the four substituted
/// coordinates.
pub open spec fn spec_password_ok(s: Seq<char>) -> bool {
    &&& s.len() == 20
    &&& s[6] == '-' && s[13] == '-'
    &&& exists|dg: int, dp: int, ug: int, up: int| spec_password_shape(s, dg, dp, ug, up)
}

/// Over a fully filled group, the character-level last-letter lookup agrees
/// with the slot-level one.
proof fn lemma_llb_unwrap(g: Seq<Option<char>>, i: int)
    requires
        0 <= i <= g.len(),
        forall|k: int| 0 <= k < g.len() ==> (#[trigger] g[k]) is Some,
    ensures
        char_last_letter_before(unwrap_group(g), i) == last_letter_before(g, i),
    decreases i,
{
    if i > 0 {
        lemma_llb_unwrap(g, i - 1);
        assert(unwrap_group(g)[i - 1] == g[i - 1].unwrap());
    }
}

/// A fully filled group whose slots respect the adjacency rule yields a
/// character sequence that respects it too.
proof fn lemma_chain_unwrap(g: Seq<Option<char>>)
    requires
        forall|k: int| 0 <= k < g.len() ==> (#[trigger] g[k]) is Some,
        group_chain_ok(g),
    ensures
        char_group_chain_ok(unwrap_group(g)),
{
    assert forall|i: int| 0 <= i < unwrap_group(g).len() implies char_slot_chain_ok(
        unwrap_group(g),
        i,
    ) by {
        lemma_llb_unwrap(g, i);
        assert(slot_chain_ok(g, i));
        assert(unwrap_group(g)[i] == g[i].unwrap());
    }
}

/// Generate one structured password: `xxxxxx-xxxxxx-xxxxxx` with one digit
/// and, in a different group and at a different in-group position, one
/// uppercase letter substituted for a lowercase letter, and no forbidden
/// neighbours among the letters of any group. Never fails; the rejection
/// draws fall back deterministically rather than loop without bound.
pub fn generate_password() -> (r: String)
    ensures
        spec_password_ok(r@),
{
    let dg = random_index(NUM_GROUPS);
    let ug = pick_other_index(dg, NUM_GROUPS);
    let dp = random_index(GROUP_SIZE);
    let up = pick_other_index(dp, GROUP_SIZE);

    proof {
        reveal_strlit("0123456789");
        reveal_strlit("ABCDEFGHIJKLMNOPQRSTUVWXYZ");
    }
    let d = get_random_char("0123456789");
    let u = get_random_char("ABCDEFGHIJKLMNOPQRSTUVWXYZ");
    proof {
        lemma_digit_charset(d);
        lemma_uppercase_charset(u);
    }

    let mut g0 = empty_group();
    let mut g1 = empty_group();
    let mut g2 = empty_group();
    if dg == 0 {
        g0.set(dp, Some(d));
    } else if dg == 1 {
        g1.set(dp, Some(d));
    } else {
        g2.set(dp, Some(d));
    }
    if ug == 0 {
        g0.set(up, Some(u));
    } else if ug == 1 {
        g1.set(up, Some(u));
    } else {
        g2.set(up, Some(u));
    }
    let ghost o0 = g0@;
    let ghost o1 = g1@;
    let ghost o2 = g2@;
    proof {
        assert(forall|k: int|
            0 <= k < 6 ==> ((#[trigger] o0[k]) is Some <==> ((dg == 0 && k == dp) || (ug == 0 && k
                == up))));
        assert(forall|k: int|
            0 <= k < 6 ==> ((#[trigger] o1[k]) is Some <==> ((dg == 1 && k == dp) || (ug == 1 && k
                == up))));
        assert(forall|k: int|
            0 <= k < 6 ==> ((#[trigger] o2[k]) is Some <==> ((dg == 2 && k == dp) || (ug == 2 && k
                == up))));
        assert(forall|k: int, l: int|
            0 <= k < l < 6 ==> !((#[trigger] o0[k]) is Some && (#[trigger] o0[l]) is Some));
        assert(forall|k: int, l: int|
            0 <= k < l < 6 ==> !((#[trigger] o1[k]) is Some && (#[trigger] o1[l]) is Some));
        assert(forall|k: int, l: int|
            0 <= k < l < 6 ==> !((#[trigger] o2[k]) is Some && (#[trigger] o2[l]) is Some));
    }

    generate_virtual_word(&mut g0);
    generate_virtual_word(&mut g1);
    generate_virtual_word(&mut g2);

    let mut chars: Vec<char> = Vec::new();
    push_group(&mut chars, &g0);
    chars.push('-');
    push_group(&mut chars, &g1);
    chars.push('-');
    push_group(&mut chars, &g2);
    let password = chars_to_string(&chars);

    proof {
        let s = password@;
        let u0 = unwrap_group(g0@);
        let u1 = unwrap_group(g1@);
        let u2 = unwrap_group(g2@);
        assert(s =~= u0 + seq!['-'] + u1 + seq!['-'] + u2);
        assert(s.len() == 20);
        assert(s[6] == '-' && s[13] == '-');
        assert(group_of(s, 0) =~= u0);
        assert(group_of(s, 1) =~= u1);
        assert(group_of(s, 2) =~= u2);
        lemma_chain_unwrap(g0@);
        lemma_chain_unwrap(g1@);
        lemma_chain_unwrap(g2@);

        let dgi = dg as int;
        let dpi = dp as int;
        let ugi = ug as int;
        let upi = up as int;
        if dg == 0 {
            assert(g0@[dpi] == Some(d));
            assert(group_of(s, dgi)[dpi] == d);
        } else if dg == 1 {
            assert(g1@[dpi] == Some(d));
            assert(group_of(s, dgi)[dpi] == d);
        } else {
            assert(g2@[dpi] == Some(d));
            assert(group_of(s, dgi)[dpi] == d);
        }
        if ug == 0 {
            assert(g0@[upi] == Some(u));
            assert(group_of(s, ugi)[upi] == u);
        } else if ug == 1 {
            assert(g1@[upi] == Some(u));
            assert(group_of(s, ugi)[upi] == u);
        } else {
            assert(g2@[upi] == Some(u));
            assert(group_of(s, ugi)[upi] == u);
        }
        assert forall|g: int, k: int|
            0 <= g < 3 && 0 <= k < 6 && !(g == dgi && k == dpi) && !(g == ugi && k == upi)
                implies spec_is_lowercase(#[trigger] group_of(s, g)[k]) by {
            if g == 0 {
                assert(o0[k] is None);
                assert(slot_is_lower(g0@[k]));
                assert(group_of(s, 0)[k] == g0@[k].unwrap());
            } else if g == 1 {
                assert(o1[k] is None);
                assert(slot_is_lower(g1@[k]));
                assert(group_of(s, 1)[k] == g1@[k].unwrap());
            } else {
                assert(o2[k] is None);
                assert(slot_is_lower(g2@[k]));
                assert(group_of(s, 2)[k] == g2@[k].unwrap());
            }
        }
        assert(spec_password_shape(s, dgi, dpi, ugi, upi));
    }
    password
}

} // verus!
