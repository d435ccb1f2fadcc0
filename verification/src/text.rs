//! Text of a line, seen as a sequence of `char`s and cut into grapheme clusters.

use vstd::prelude::*;
use vstd::utf8::encode_utf8;
use unicode_segmentation::UnicodeSegmentation;

verus! {

/// The extended grapheme clusters of a text, in order, as the outside
/// segmentation library computes them.
pub uninterp spec fn graphemes_of(s: Seq<char>) -> Seq<Seq<char>>;

/// The concatenation of the views of a sequence of strings.
pub open spec fn concat_views(v: Seq<String>) -> Seq<char> {
    v.map_values(|g: String| g@).flatten()
}

/// Number of grapheme clusters of a text.
pub open spec fn grapheme_count(s: Seq<char>) -> int {
    graphemes_of(s).len() as int
}

/// `k` held to the range `0..=grapheme_count(s)`.
pub open spec fn clamp_index(s: Seq<char>, k: int) -> int {
    if k < 0 {
        0
    } else if k < grapheme_count(s) {
        k
    } else {
        grapheme_count(s)
    }
}

/// Position, counted in `char`s, where grapheme cluster `k` of `s` starts;
/// the end of the text when `k` is past the last cluster.
pub open spec fn grapheme_start(s: Seq<char>, k: int) -> int {
    graphemes_of(s).take(clamp_index(s, k)).flatten().len() as int
}

/// Byte length of the UTF-8 encoding of the first `k` chars of `s`.
pub open spec fn byte_offset(s: Seq<char>, k: int) -> int {
    encode_utf8(s.take(k)).len() as int
}

/// `idx` is the byte position at which char `k` of `s` starts (or the end).
pub open spec fn char_boundary_at(s: Seq<char>, k: int, idx: int) -> bool {
    0 <= k <= s.len() && byte_offset(s, k) == idx
}

/// The segmentation facts that the outside library guarantees of a text:
/// its clusters are non-empty and, put together, give back the text.
pub open spec fn segmentation_sound(s: Seq<char>) -> bool {
    &&& graphemes_of(s).flatten() == s
    &&& forall|i: int| 0 <= i < graphemes_of(s).len() ==> #[trigger] graphemes_of(s)[i].len() > 0
}

/// Flattening distributes over concatenation.
pub proof fn lemma_flatten_concat<A>(a: Seq<Seq<A>>, b: Seq<Seq<A>>)
    ensures
        (a + b).flatten() == a.flatten() + b.flatten(),
    decreases a.len(),
{
    if a.len() == 0 {
        assert(a + b =~= b);
        assert(a.flatten() + b.flatten() =~= b.flatten());
    } else {
        lemma_flatten_concat(a.drop_first(), b);
        assert((a + b).drop_first() =~= a.drop_first() + b);
        assert((a + b).first() == a.first());
        assert(a.first() + (a.drop_first().flatten() + b.flatten()) =~= (a.first()
            + a.drop_first().flatten()) + b.flatten());
    }
}

/// Taking one more element of a sequence of sequences adds that element at
/// the end of the flattened prefix.
pub proof fn lemma_flatten_take_step<A>(s: Seq<Seq<A>>, i: int)
    requires
        0 <= i < s.len(),
    ensures
        s.take(i + 1).flatten() == s.take(i).flatten() + s[i],
{
    lemma_flatten_concat(s.take(i), seq![s[i]]);
    assert(s.take(i + 1) =~= s.take(i) + seq![s[i]]);
    assert(seq![s[i]].drop_first() =~= Seq::<Seq<A>>::empty());
    assert(seq![s[i]].flatten() == s[i] + Seq::<Seq<A>>::empty().flatten());
    assert(seq![s[i]].flatten() =~= s[i]);
}

/// The first `n` clusters of a soundly segmented text, put together, are a
/// prefix of the text.
pub proof fn lemma_clusters_prefix(s: Seq<char>, n: int)
    requires
        segmentation_sound(s),
        0 <= n <= grapheme_count(s),
    ensures
        graphemes_of(s).take(n).flatten().len() <= s.len(),
        s.take(graphemes_of(s).take(n).flatten().len() as int) == graphemes_of(s).take(n).flatten(),
{
    let g = graphemes_of(s);
    assert(g =~= g.take(n) + g.skip(n));
    lemma_flatten_concat(g.take(n), g.skip(n));
    assert(s.take(g.take(n).flatten().len() as int) =~= g.take(n).flatten());
}

/// In a soundly segmented text, the first `k` clusters form a prefix of it,
/// and that prefix is shorter than the text exactly when clusters remain.
pub proof fn lemma_grapheme_prefix(s: Seq<char>, k: int)
    requires
        segmentation_sound(s),
    ensures
        0 <= grapheme_start(s, k) <= s.len(),
        s.take(grapheme_start(s, k)) == graphemes_of(s).take(clamp_index(s, k)).flatten(),
        clamp_index(s, k) < grapheme_count(s) ==> grapheme_start(s, k) < s.len(),
        clamp_index(s, k) == grapheme_count(s) ==> grapheme_start(s, k) == s.len(),
{
    let g = graphemes_of(s);
    let j = clamp_index(s, k);
    let pre = g.take(j);
    let post = g.skip(j);
    assert(g =~= pre + post);
    lemma_flatten_concat(pre, post);
    assert(s == pre.flatten() + post.flatten());
    assert(s.take(pre.flatten().len() as int) =~= pre.flatten());
    if j < g.len() {
        assert(post.first() == g[j]);
        assert(post.flatten() == post.first() + post.drop_first().flatten());
    } else {
        assert(post.len() == 0);
        assert(post.flatten() =~= Seq::<char>::empty());
    }
}

/// UTF-8 encoding distributes over concatenation.
pub proof fn lemma_encode_concat(x: Seq<char>, y: Seq<char>)
    ensures
        encode_utf8(x + y) == encode_utf8(x) + encode_utf8(y),
    decreases x.len(),
{
    if x.len() == 0 {
        assert(x + y =~= y);
        assert(encode_utf8(x) + encode_utf8(y) =~= encode_utf8(y));
    } else {
        lemma_encode_concat(x.drop_first(), y);
        assert((x + y).drop_first() =~= x.drop_first() + y);
        assert((x + y)[0] == x[0]);
        let e = vstd::utf8::encode_scalar(x[0] as u32);
        assert(e + (encode_utf8(x.drop_first()) + encode_utf8(y)) =~= (e + encode_utf8(
            x.drop_first(),
        )) + encode_utf8(y));
    }
}

/// Byte positions of grapheme clusters grow with the cluster index: the byte
/// position that `grapheme_getindex` reports for `i` is at most the one for
/// `j` when `i <= j`.
pub proof fn lemma_getindex_monotone(s: Seq<char>, i: int, j: int)
    requires
        segmentation_sound(s),
        i <= j,
    ensures
        grapheme_start(s, i) <= grapheme_start(s, j),
        byte_offset(s, grapheme_start(s, i)) <= byte_offset(s, grapheme_start(s, j)),
{
    let g = graphemes_of(s);
    let ci = clamp_index(s, i);
    let cj = clamp_index(s, j);
    assert(g.take(cj) =~= g.take(ci) + g.take(cj).skip(ci));
    lemma_flatten_concat(g.take(ci), g.take(cj).skip(ci));
    lemma_grapheme_prefix(s, i);
    lemma_grapheme_prefix(s, j);
    let a = grapheme_start(s, i);
    let b = grapheme_start(s, j);
    assert(s.take(b) =~= s.take(a) + s.take(b).skip(a));
    lemma_encode_concat(s.take(a), s.take(b).skip(a));
}

/// Clusters of a line, as `String`s, in order (calls `graphemes(true)`).
///
/// Claims of `UnicodeSegmentation::graphemes`: the items are the grapheme
/// clusters of the text (named `graphemes_of`), none is empty, and their
/// concatenation is the text (the iterator yields consecutive non-empty slices
/// from the start of the string to its end).
#[verifier::external_body]
pub fn grapheme_clusters(line: &str) -> (r: Vec<String>)
    ensures
        r@.map_values(|g: String| g@) == graphemes_of(line@),
        concat_views(r@) == line@,
        forall|i: int| 0 <= i < r@.len() ==> (#[trigger] r@[i])@.len() > 0,
{
    line.graphemes(true).map(|g| g.to_string()).collect()
}

/// Clusters of a line with the byte offsets at which they start (calls
/// `grapheme_indices(true)`).
///
/// Claims of `UnicodeSegmentation::grapheme_indices`: it walks the same
/// clusters as `graphemes` (it is built on that iterator), and the offset
/// paired with each cluster is the byte length of the UTF-8 encoding of all
/// the clusters before it.
#[verifier::external_body]
pub fn grapheme_offsets(line: &str) -> (r: Vec<(usize, String)>)
    ensures
        r@.map_values(|p: (usize, String)| p.1@) == graphemes_of(line@),
        r@.map_values(|p: (usize, String)| p.1@).flatten() == line@,
        forall|i: int| 0 <= i < r@.len() ==> (#[trigger] r@[i]).1@.len() > 0,
        forall|i: int|
            0 <= i < r@.len() ==> (#[trigger] r@[i]).0 == encode_utf8(
                r@.map_values(|p: (usize, String)| p.1@).take(i).flatten(),
            ).len(),
{
    line.grapheme_indices(true).map(|(i, g)| (i, g.to_string())).collect()
}

/// Number of grapheme clusters of a line.
pub fn grapheme_length(line: &str) -> (r: usize)
    ensures
        r == grapheme_count(line@),
        segmentation_sound(line@),
{
    let clusters = grapheme_clusters(line);
    proof {
        let g = graphemes_of(line@);
        assert forall|i: int| 0 <= i < g.len() implies #[trigger] g[i].len() > 0 by {
            assert(g[i] == clusters@[i]@);
        }
    }
    clusters.len()
}

/// The offset of cluster `index` in a list of (offset, cluster) pairs, or
/// `byte_len` when the list has no such cluster.
pub fn pick_offset(pairs: &Vec<(usize, String)>, index: usize, byte_len: usize) -> (r: usize)
    ensures
        r == if index < pairs@.len() {
            pairs@[index as int].0
        } else {
            byte_len
        },
{
    if index < pairs.len() {
        pairs[index].0
    } else {
        byte_len
    }
}

/// Cluster `index` of a list of clusters, or a NUL char when there is none.
pub fn pick_cluster<'a>(clusters: &'a Vec<String>, index: usize) -> (r: &'a str)
    ensures
        r@ == if index < clusters@.len() {
            clusters@[index as int]@
        } else {
            seq!['\0']
        },
{
    if index < clusters.len() {
        clusters[index].as_str()
    } else {
        let nul = "\0";
        proof {
            reveal_strlit("\0");
            assert(nul@ =~= seq!['\0']);
        }
        nul
    }
}

/// The first `n` clusters of a list (all of them when it is shorter), put
/// together.
pub fn concat_first(clusters: &Vec<String>, n: usize) -> (r: String)
    ensures
        r@ == clusters@.map_values(|g: String| g@).take(
            if n < clusters@.len() {
                n as int
            } else {
                clusters@.len() as int
            },
        ).flatten(),
{
    let m = if n < clusters.len() {
        n
    } else {
        clusters.len()
    };
    let ghost views = clusters@.map_values(|g: String| g@);
    let mut shown = String::new();
    let mut i: usize = 0;
    proof {
        assert(views.take(0) =~= Seq::<Seq<char>>::empty());
    }
    while i < m
        invariant
            m <= clusters@.len(),
            i <= m,
            views == clusters@.map_values(|g: String| g@),
            shown@ == views.take(i as int).flatten(),
        decreases m - i,
    {
        proof {
            lemma_flatten_take_step(views, i as int);
        }
        shown.append(clusters[i].as_str());
        i += 1;
    }
    shown
}

/// Byte position where grapheme cluster `index` of `line` starts; the byte
/// length of the line when there is no such cluster.
pub fn grapheme_getindex(line: &str, index: usize) -> (r: usize)
    ensures
        segmentation_sound(line@),
        r == byte_offset(line@, grapheme_start(line@, index as int)),
        char_boundary_at(line@, grapheme_start(line@, index as int), r as int),
{
    let pairs = grapheme_offsets(line);
    let ghost g = graphemes_of(line@);
    proof {
        assert forall|i: int| 0 <= i < g.len() implies #[trigger] g[i].len() > 0 by {
            assert(g[i] == pairs@[i].1@);
        }
        lemma_grapheme_prefix(line@, index as int);
        let start = grapheme_start(line@, index as int);
        if index < pairs.len() {
            assert(pairs@[index as int].0 == encode_utf8(g.take(index as int).flatten()).len());
            assert(clamp_index(line@, index as int) == index);
            assert(line@.take(start) == g.take(index as int).flatten());
        } else {
            assert(clamp_index(line@, index as int) == g.len());
            assert(start == line@.len());
            assert(line@.take(start) =~= line@);
        }
    }
    pick_offset(&pairs, index, line.as_bytes().len())
}

/// The decimal digit `d` as a char.
pub open spec fn digit_char(d: int) -> char {
    ((48 + d) as u8) as char
}

/// The decimal notation of `n`, without leading zeros.
pub open spec fn decimal(n: nat) -> Seq<char>
    decreases n,
{
    if n < 10 {
        seq![digit_char(n as int)]
    } else {
        decimal(n / 10).push(digit_char((n % 10) as int))
    }
}

/// The number that a sequence of decimal digits stands for.
pub open spec fn digits_value(s: Seq<char>) -> int
    decreases s.len(),
{
    if s.len() == 0 {
        0
    } else {
        digits_value(s.drop_last()) * 10 + (s.last() as int - 48)
    }
}

/// `decimal(n)` is the decimal notation of `n`: it is made of the digits
/// `0`..`9`, reads back as `n`, and starts with `0` only when `n` is zero.
pub proof fn lemma_decimal_is_notation(n: nat)
    ensures
        decimal(n).len() >= 1,
        forall|i: int| 0 <= i < decimal(n).len() ==> 48 <= #[trigger] (decimal(n)[i] as int) <= 57,
        digits_value(decimal(n)) == n,
        n > 0 ==> decimal(n)[0] as int != 48,
        n == 0 ==> decimal(n) == seq!['0'],
    decreases n,
{
    assert forall|d: int| 0 <= d < 10 implies #[trigger] (digit_char(d) as int) == 48 + d by {
        assert(((48 + d) as u8) as int == 48 + d);
    }
    if n < 10 {
        assert(digit_char(n as int) as int == 48 + n);
        let t = seq![digit_char(n as int)];
        assert(t.drop_last() =~= Seq::<char>::empty());
        assert(digits_value(Seq::<char>::empty()) == 0);
        assert(t.last() == digit_char(n as int));
        assert(digits_value(t) == digits_value(t.drop_last()) * 10 + (t.last() as int - 48));
        assert(decimal(n) == t);
        if n == 0 {
            assert(digit_char(0) == '0');
        }
    } else {
        let q = n / 10;
        let d = (n % 10) as int;
        lemma_decimal_is_notation(q);
        let t = decimal(q).push(digit_char(d));
        assert(t.drop_last() =~= decimal(q));
        assert(digit_char(d) as int == 48 + d);
        assert(t.last() == digit_char(d));
        assert(digits_value(t) == digits_value(t.drop_last()) * 10 + (t.last() as int - 48));
        assert(decimal(n) == t);
        assert(n == q * 10 + d);
        assert(t[0] == decimal(q)[0]);
        assert forall|i: int| 0 <= i < t.len() implies 48 <= #[trigger] (t[i] as int) <= 57 by {
            if i < t.len() - 1 {
                assert(t[i] == decimal(q)[i]);
            }
        }
    }
}

/// Appends the decimal notation of `n`.
pub fn push_decimal(s: &mut String, n: usize)
    ensures
        final(s)@ == old(s)@ + decimal(n as nat),
    decreases n,
{
    if n >= 10 {
        push_decimal(s, n / 10);
    }
    let d: u8 = (n % 10) as u8;
    push_char(s, (48u8 + d) as char);
    proof {
        assert(old(s)@ + decimal(n as nat) =~= if n >= 10 {
            old(s)@ + decimal((n / 10) as nat)
        } else {
            old(s)@
        }.push(digit_char((n % 10) as int)));
    }
}

/// `String::insert`: puts `ch` at byte position `idx`.
///
/// Claims of the std method: it requires `idx` to start a char (or be the end
/// of the string), which is `idx` being the byte length of some prefix of the
/// chars, and the new text is the old one with `ch` placed at that prefix.
#[verifier::external_body]
pub fn insert_char(s: &mut String, idx: usize, ch: char)
    requires
        exists|k: int| char_boundary_at(old(s)@, k, idx as int),
    ensures
        forall|k: int|
            char_boundary_at(old(s)@, k, idx as int) ==> final(s)@ == #[trigger] old(s)@.insert(
                k,
                ch,
            ),
{
    s.insert(idx, ch)
}

/// `String::remove`: takes out the char that starts at byte position `idx`.
///
/// Claims of the std method: `idx` must start a char of the string (not be its
/// end); the char there is returned and the rest of the text keeps its order.
#[verifier::external_body]
pub fn remove_char(s: &mut String, idx: usize) -> (r: char)
    requires
        exists|k: int| k < old(s)@.len() && char_boundary_at(old(s)@, k, idx as int),
    ensures
        forall|k: int|
            k < old(s)@.len() && char_boundary_at(old(s)@, k, idx as int) ==> {
                &&& final(s)@ == #[trigger] old(s)@.remove(k)
                &&& r == old(s)@[k]
            },
{
    s.remove(idx)
}

/// `String::split_off`: cuts the string at byte position `at`.
///
/// Claims of the std method: `at` must start a char (or be the end); the
/// string keeps the chars before it and the returned string holds the rest.
#[verifier::external_body]
pub fn split_string(s: &mut String, at: usize) -> (r: String)
    requires
        exists|k: int| char_boundary_at(old(s)@, k, at as int),
    ensures
        forall|k: int|
            char_boundary_at(old(s)@, k, at as int) ==> {
                &&& final(s)@ == #[trigger] old(s)@.take(k)
                &&& r@ == old(s)@.skip(k)
            },
{
    s.split_off(at)
}

/// `String::push`: appends one char.
#[verifier::external_body]
pub fn push_char(s: &mut String, c: char)
    ensures
        final(s)@ == old(s)@.push(c),
{
    s.push(c)
}

/// The chars of a string slice, in order (`str::chars`, collected).
#[verifier::external_body]
pub fn chars_of(s: &str) -> (r: Vec<char>)
    ensures
        r@ == s@,
{
    s.chars().collect()
}

/// What `str::escape_debug` writes for a text.
pub uninterp spec fn escaped_debug(s: Seq<char>) -> Seq<char>;

/// `str::escape_debug`, collected into a `String`.
///
/// The escaping rules (which chars are written as `\u{..}`, `\n`, `\0`, ...)
/// are not stated: the result is named by `escaped_debug`.
#[verifier::external_body]
pub fn escape_debug_text(s: &str) -> (r: String)
    ensures
        r@ == escaped_debug(s@),
{
    s.escape_debug().to_string()
}

} // verus!
