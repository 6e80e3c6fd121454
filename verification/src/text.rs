//! Text: the order this library sorts identifiers in, and the few string
//! operations its formats need.

use vstd::prelude::*;
use vstd::string::*;

verus! {

/// `a` and `b` agree on their first `k` characters.
pub open spec fn agree_below(a: Seq<char>, b: Seq<char>, k: int) -> bool {
    forall|j: int| 0 <= j < k ==> a[j] == b[j]
}

/// `a` differs from `b` first at `k`, or ends there while `b` goes on, and
/// is smaller there.
pub open spec fn less_at(a: Seq<char>, b: Seq<char>, k: int) -> bool {
    &&& 0 <= k <= a.len()
    &&& k <= b.len()
    &&& agree_below(a, b, k)
    &&& ((k == a.len() && k < b.len()) || (k < a.len() && k < b.len() && (a[k] as u32) < (b[k] as u32)))
}

/// The order text is sorted in: lexicographic over code points, which for
/// UTF-8 is the same as the byte order `String`'s own ordering uses.
pub open spec fn text_less(a: Seq<char>, b: Seq<char>) -> bool {
    exists|k: int| #[trigger] less_at(a, b, k)
}

/// No text is smaller than itself.
pub proof fn lemma_text_less_irreflexive(a: Seq<char>)
    ensures
        !text_less(a, a),
{
}

/// Of two different texts, exactly one is smaller.
pub proof fn lemma_text_less_total(a: Seq<char>, b: Seq<char>)
    ensures
        a != b ==> (text_less(a, b) || text_less(b, a)),
        !(text_less(a, b) && text_less(b, a)),
{
    if text_less(a, b) && text_less(b, a) {
        let k1 = choose|k: int| #[trigger] less_at(a, b, k);
        let k2 = choose|k: int| #[trigger] less_at(b, a, k);
        if k1 < k2 {
            assert(b[k1] == a[k1]);
        } else if k2 < k1 {
            assert(a[k2] == b[k2]);
        }
    }
    if a != b {
        // the first position where they differ, or the shorter length
        let m = if a.len() < b.len() { a.len() } else { b.len() };
        if agree_below(a, b, m as int) {
            if a.len() == b.len() {
                assert(a =~= b);
            } else if a.len() < b.len() {
                assert(less_at(a, b, m as int));
            } else {
                assert(less_at(b, a, m as int));
            }
        } else {
            let k = choose|j: int| 0 <= j < m && a[j] != b[j] && agree_below(a, b, j);
            assert(exists|j: int| 0 <= j < m && a[j] != b[j] && agree_below(a, b, j)) by {
                lemma_first_difference(a, b, m as int);
            }
            if (a[k] as u32) == (b[k] as u32) {
                vstd::utf8::char_u32_cast(a[k], a[k] as u32);
                vstd::utf8::char_u32_cast(b[k], b[k] as u32);
                assert(a[k] == b[k]);
            }
            if (a[k] as u32) < (b[k] as u32) {
                assert(less_at(a, b, k));
            } else {
                assert((b[k] as u32) < (a[k] as u32));
                assert(less_at(b, a, k));
            }
        }
    }
}

/// Where two texts disagree below `m`, there is a first place they do.
proof fn lemma_first_difference(a: Seq<char>, b: Seq<char>, m: int)
    requires
        0 <= m <= a.len(),
        m <= b.len(),
        !agree_below(a, b, m),
    ensures
        exists|j: int| 0 <= j < m && a[j] != b[j] && agree_below(a, b, j),
    decreases m,
{
    if agree_below(a, b, m - 1) {
        assert(a[m - 1] != b[m - 1]);
        assert(0 <= m - 1 < m && a[m - 1] != b[m - 1] && agree_below(a, b, m - 1));
    } else {
        lemma_first_difference(a, b, m - 1);
    }
}

/// The order is transitive.
pub proof fn lemma_text_less_transitive(a: Seq<char>, b: Seq<char>, c: Seq<char>)
    requires
        text_less(a, b),
        text_less(b, c),
    ensures
        text_less(a, c),
{
    let k1 = choose|k: int| #[trigger] less_at(a, b, k);
    let k2 = choose|k: int| #[trigger] less_at(b, c, k);
    if k1 < k2 {
        assert(less_at(a, c, k1));
    } else if k2 < k1 {
        assert(b[k2] == a[k2]);
        assert(less_at(a, c, k2));
    } else {
        assert(less_at(a, c, k1));
    }
}

/// The outcome of comparing two texts.
#[derive(Debug, Clone, Copy, PartialEq, Eq, Structural)]
pub enum TextOrder {
    Less,
    Equal,
    Greater,
}

/// Compares two texts in the order `text_less` defines.
pub fn compare_text(a: &String, b: &String) -> (order: TextOrder)
    ensures
        order == TextOrder::Less <==> text_less(a@, b@),
        order == TextOrder::Equal <==> a@ == b@,
        order == TextOrder::Greater <==> text_less(b@, a@),
{
    proof {
        lemma_text_less_total(a@, b@);
        lemma_text_less_irreflexive(a@);
    }
    let sa = a.as_str();
    let sb = b.as_str();
    let la = sa.unicode_len();
    let lb = sb.unicode_len();
    let mut i: usize = 0;
    while i < la && i < lb
        invariant
            la == a@.len(),
            lb == b@.len(),
            sa@ == a@,
            sb@ == b@,
            i <= la,
            i <= lb,
            agree_below(a@, b@, i as int),
        decreases la - i,
    {
        let ca = sa.get_char(i);
        let cb = sb.get_char(i);
        if (ca as u32) < (cb as u32) {
            assert(less_at(a@, b@, i as int));
            return TextOrder::Less;
        }
        if (cb as u32) < (ca as u32) {
            assert(less_at(b@, a@, i as int));
            return TextOrder::Greater;
        }
        proof {
            assert((ca as u32) == (cb as u32));
            assert(ca == cb);
        }
        i = i + 1;
    }
    if la < lb {
        assert(less_at(a@, b@, i as int));
        TextOrder::Less
    } else if lb < la {
        assert(less_at(b@, a@, i as int));
        TextOrder::Greater
    } else {
        assert(a@ =~= b@);
        TextOrder::Equal
    }
}

/// The views of a sequence of strings.
pub open spec fn views(texts: Seq<String>) -> Seq<Seq<char>> {
    texts.map_values(|t: String| t@)
}

/// Each text strictly smaller than the next: sorted, with no repeats.
pub open spec fn strictly_sorted(texts: Seq<Seq<char>>) -> bool {
    forall|i: int, j: int| 0 <= i < j < texts.len() ==> text_less(#[trigger] texts[i], #[trigger] texts[j])
}

/// Inserts `text` into a strictly sorted vector unless it is already there.
pub fn insert_sorted_unique(sorted: &mut Vec<String>, text: String)
    requires
        strictly_sorted(views(old(sorted)@)),
    ensures
        strictly_sorted(views(final(sorted)@)),
        forall|t: Seq<char>| views(final(sorted)@).contains(t) <==> (views(old(sorted)@).contains(t) || t == text@),
{
    let ghost old_views = views(sorted@);
    let mut p: usize = 0;
    let mut searching = true;
    while searching
        invariant
            p <= sorted@.len(),
            sorted@ == old(sorted)@,
            old_views == views(sorted@),
            strictly_sorted(old_views),
            forall|i: int| 0 <= i < p ==> text_less(#[trigger] old_views[i], text@),
            !searching ==> (p == sorted@.len() || !text_less(old_views[p as int], text@)),
        decreases sorted@.len() - p + (if searching { 1int } else { 0int }),
    {
        if p < sorted.len() {
            match compare_text(&sorted[p], &text) {
                TextOrder::Less => {
                    p = p + 1;
                },
                _ => {
                    proof {
                        assert(old_views[p as int] == sorted@[p as int]@);
                    }
                    searching = false;
                },
            }
        } else {
            searching = false;
        }
    }
    if p < sorted.len() {
        let order = compare_text(&sorted[p], &text);
        match order {
            TextOrder::Equal => {
                proof {
                    assert(old_views[p as int] == text@);
                }
                return;
            },
            _ => {},
        }
        proof {
            assert(old_views[p as int] == sorted@[p as int]@);
            lemma_text_less_total(old_views[p as int], text@);
            assert(text_less(text@, old_views[p as int]));
        }
    }
    let ghost x = text@;
    sorted.insert(p, text);
    proof {
        let nv = views(sorted@);
        assert(nv =~= old_views.insert(p as int, x));
        assert forall|i: int, j: int| 0 <= i < j < nv.len() implies text_less(#[trigger] nv[i], #[trigger] nv[j]) by {
            if j < p {
                assert(nv[i] == old_views[i] && nv[j] == old_views[j]);
            } else if j == p {
                assert(nv[i] == old_views[i]);
            } else if i < p {
                assert(nv[i] == old_views[i] && nv[j] == old_views[j - 1]);
                if i < j - 1 {
                } else {
                }
            } else if i == p {
                assert(nv[j] == old_views[j - 1]);
                if j - 1 > p {
                    assert(text_less(old_views[p as int], old_views[j - 1]));
                    lemma_text_less_transitive(x, old_views[p as int], old_views[j - 1]);
                }
            } else {
                assert(nv[i] == old_views[i - 1] && nv[j] == old_views[j - 1]);
            }
        }
        assert forall|t: Seq<char>| nv.contains(t) <==> (old_views.contains(t) || t == x) by {
            if nv.contains(t) {
                let k = choose|k: int| 0 <= k < nv.len() && nv[k] == t;
                if k < p {
                    assert(old_views[k] == t);
                } else if k > p {
                    assert(old_views[k - 1] == t);
                }
            }
            if old_views.contains(t) {
                let k = choose|k: int| 0 <= k < old_views.len() && old_views[k] == t;
                if k < p {
                    assert(nv[k] == t);
                } else {
                    assert(nv[k + 1] == t);
                }
            }
            if t == x {
                assert(nv[p as int] == t);
            }
        }
    }
}

/// The distinct texts of `texts`, in sorted order.
pub fn sorted_unique(texts: &Vec<String>) -> (sorted: Vec<String>)
    ensures
        strictly_sorted(views(sorted@)),
        forall|t: Seq<char>| views(sorted@).contains(t) <==> views(texts@).contains(t),
{
    let mut sorted: Vec<String> = Vec::new();
    let mut i: usize = 0;
    proof {
        assert(views(sorted@) =~= Seq::<Seq<char>>::empty());
    }
    while i < texts.len()
        invariant
            i <= texts@.len(),
            strictly_sorted(views(sorted@)),
            forall|t: Seq<char>| views(sorted@).contains(t) <==> views(texts@.take(i as int)).contains(t),
        decreases texts@.len() - i,
    {
        let text = texts[i].clone();
        insert_sorted_unique(&mut sorted, text);
        proof {
            let before = views(texts@.take(i as int));
            let after = views(texts@.take(i + 1));
            assert(after =~= before.push(texts@[i as int]@));
            assert forall|t: Seq<char>| after.contains(t) <==> (before.contains(t) || t == texts@[i as int]@) by {
                if after.contains(t) {
                    let k = choose|k: int| 0 <= k < after.len() && after[k] == t;
                    if k < before.len() {
                        assert(before[k] == t);
                    }
                }
                if before.contains(t) {
                    let k = choose|k: int| 0 <= k < before.len() && before[k] == t;
                    assert(after[k] == t);
                }
                if t == texts@[i as int]@ {
                    assert(after[i as int] == t);
                }
            }
        }
        i = i + 1;
    }
    proof {
        assert(texts@.take(i as int) =~= texts@);
    }
    sorted
}

/// Whether `needle` occurs in `text` starting at `at`.
pub open spec fn occurs_at(text: Seq<char>, needle: Seq<char>, at: int) -> bool {
    0 <= at && at + needle.len() <= text.len() && text.subrange(at, at + needle.len()) == needle
}

/// Whether `needle` occurs anywhere in `text`.
pub open spec fn occurs_in(text: Seq<char>, needle: Seq<char>) -> bool {
    exists|at: int| #[trigger] occurs_at(text, needle, at)
}

/// Whether `needle` occurs in `text`.
pub fn contains_text(text: &str, needle: &str) -> (found: bool)
    ensures
        found == occurs_in(text@, needle@),
{
    let n = text.unicode_len();
    let m = needle.unicode_len();
    if m > n {
        proof {
            assert forall|at: int| !occurs_at(text@, needle@, at) by {}
        }
        return false;
    }
    let mut at: usize = 0;
    while at <= n - m
        invariant
            n == text@.len(),
            m == needle@.len(),
            m <= n,
            at <= n - m + 1,
            forall|a: int| 0 <= a < at ==> !occurs_at(text@, needle@, a),
        decreases n - m + 1 - at,
    {
        let mut j: usize = 0;
        let mut matching = true;
        while j < m && matching
            invariant
                n == text@.len(),
                m == needle@.len(),
                at + m <= n,
                j <= m,
                matching ==> forall|b: int| 0 <= b < j ==> text@[at + b] == needle@[b],
                !matching ==> j > 0 && text@[at + j - 1] != needle@[j - 1],
            decreases m - j + (if matching { 1int } else { 0int }),
        {
            if text.get_char(at + j) != needle.get_char(j) {
                matching = false;
            }
            j = j + 1;
        }
        if matching {
            proof {
                assert(text@.subrange(at as int, at + m) =~= needle@);
                assert(occurs_at(text@, needle@, at as int));
            }
            return true;
        }
        proof {
            assert(text@.subrange(at as int, at + m)[j - 1] != needle@[j - 1]);
        }
        at = at + 1;
    }
    proof {
        assert forall|a: int| !occurs_at(text@, needle@, a) by {
            if 0 <= a && a + m <= n {
                assert(a < at);
            }
        }
    }
    false
}

/// Appends the decimal digits of `n`.
pub open spec fn decimal(n: nat) -> Seq<char>
    decreases n,
{
    if n < 10 {
        seq![digit_char(n)]
    } else {
        decimal(n / 10) + seq![digit_char(n % 10)]
    }
}

/// The character of one decimal digit.
pub open spec fn digit_char(d: nat) -> char {
    if d == 0 { '0' } else if d == 1 { '1' } else if d == 2 { '2' } else if d == 3 { '3' } else if d == 4 { '4' }
    else if d == 5 { '5' } else if d == 6 { '6' } else if d == 7 { '7' } else if d == 8 { '8' } else { '9' }
}

/// Appends `n` in decimal.
pub fn push_decimal(text: &mut String, n: usize)
    ensures
        final(text)@ == old(text)@ + decimal(n as nat),
    decreases n,
{
    if n >= 10 {
        push_decimal(text, n / 10);
    }
    let d = n % 10;
    let c = if d == 0 { '0' } else if d == 1 { '1' } else if d == 2 { '2' } else if d == 3 { '3' } else if d == 4 { '4' }
        else if d == 5 { '5' } else if d == 6 { '6' } else if d == 7 { '7' } else if d == 8 { '8' } else { '9' };
    push_char(text, c);
    proof {
        assert(c == digit_char((n % 10) as nat));
    }
}

/// Appends one character.
///
/// Calls `String::push`, which std documents as appending the character to
/// the end of the string; the contract says exactly that of the view.
#[verifier::external_body]
pub(crate) fn push_char(text: &mut String, c: char)
    ensures
        final(text)@ == old(text)@.push(c),
{
    text.push(c);
}

/// How one character is written inside a JSON string: the quote, the
/// backslash and the control characters escaped, the short forms where
/// JSON has them, everything else as it is.
pub open spec fn json_char(c: char) -> Seq<char> {
    if c == '"' {
        seq!['\\', '"']
    } else if c == '\\' {
        seq!['\\', '\\']
    } else if c == '\n' {
        seq!['\\', 'n']
    } else if c == '\r' {
        seq!['\\', 'r']
    } else if c == '\t' {
        seq!['\\', 't']
    } else if (c as u32) == 8 {
        seq!['\\', 'b']
    } else if (c as u32) == 12 {
        seq!['\\', 'f']
    } else if (c as u32) < 32 {
        seq!['\\', 'u', '0', '0', crate::probe::hex_digit((c as u32) / 16), crate::probe::hex_digit((c as u32) % 16)]
    } else {
        seq![c]
    }
}

/// The characters of a text, each written as inside a JSON string.
pub open spec fn json_escaped(text: Seq<char>) -> Seq<char>
    decreases text.len(),
{
    if text.len() == 0 {
        Seq::empty()
    } else {
        json_escaped(text.drop_last()) + json_char(text.last())
    }
}

/// A text as a JSON string literal.
pub open spec fn json_string(text: Seq<char>) -> Seq<char> {
    seq!['"'] + json_escaped(text) + seq!['"']
}

/// Appends `text` as a JSON string literal.
pub fn push_json_string(out: &mut String, text: &str)
    ensures
        final(out)@ == old(out)@ + json_string(text@),
{
    push_char(out, '"');
    let n = text.unicode_len();
    let ghost start = old(out)@;
    let mut i: usize = 0;
    while i < n
        invariant
            n == text@.len(),
            i <= n,
            out@ == start + seq!['"'] + json_escaped(text@.take(i as int)),
        decreases n - i,
    {
        let c = text.get_char(i);
        let code = c as u32;
        let ghost before = out@;
        if c == '"' {
            push_char(out, '\\');
            push_char(out, '"');
        } else if c == '\\' {
            push_char(out, '\\');
            push_char(out, '\\');
        } else if c == '\n' {
            push_char(out, '\\');
            push_char(out, 'n');
        } else if c == '\r' {
            push_char(out, '\\');
            push_char(out, 'r');
        } else if c == '\t' {
            push_char(out, '\\');
            push_char(out, 't');
        } else if code == 8 {
            push_char(out, '\\');
            push_char(out, 'b');
        } else if code == 12 {
            push_char(out, '\\');
            push_char(out, 'f');
        } else if code < 32 {
            push_char(out, '\\');
            push_char(out, 'u');
            push_char(out, '0');
            push_char(out, '0');
            push_char(out, crate::probe::hex_char(code / 16));
            push_char(out, crate::probe::hex_char(code % 16));
        } else {
            push_char(out, c);
        }
        proof {
            assert(out@ =~= before + json_char(c));
            assert(text@.take((i + 1) as int).drop_last() =~= text@.take(i as int));
            assert(text@.take((i + 1) as int).last() == c);
            assert(out@ =~= start + seq!['"'] + json_escaped(text@.take((i + 1) as int)));
        }
        i = i + 1;
    }
    push_char(out, '"');
    proof {
        assert(text@.take(n as int) =~= text@);
        assert(out@ =~= start + json_string(text@));
    }
}

} // verus!
