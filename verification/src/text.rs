//! Character sequences: runs of one character, splitting on a separator,
//! joining, and cutting a paragraph into pieces of a fixed length.

use vstd::prelude::*;
use vstd::std_specs::iter::IteratorSpec;
use vstd::string::*;

verus! {

/// `String::push` appends one character.
pub assume_specification[ String::push ](s: &mut String, ch: char)
    ensures
        final(s)@ == old(s)@.push(ch),
;

/// `n` copies of `c`.
pub open spec fn repeat(c: char, n: nat) -> Seq<char> {
    Seq::new(n, |i: int| c)
}

/// `n` blank cells.
pub open spec fn spaces(n: nat) -> Seq<char> {
    repeat(' ', n)
}

/// The pieces of `s` between occurrences of `sep`, in order. There is one more
/// piece than there are separators, so the empty sequence has one empty piece.
pub open spec fn split_on(s: Seq<char>, sep: char) -> Seq<Seq<char>>
    decreases s.len(),
{
    if s.len() == 0 {
        seq![Seq::<char>::empty()]
    } else if s.last() == sep {
        split_on(s.drop_last(), sep).push(Seq::<char>::empty())
    } else {
        let head = split_on(s.drop_last(), sep);
        head.drop_last().push(head.last().push(s.last()))
    }
}

/// The pieces, with one `sep` between each two neighbours.
pub open spec fn join_with(parts: Seq<Seq<char>>, sep: char) -> Seq<char>
    decreases parts.len(),
{
    if parts.len() == 0 {
        Seq::<char>::empty()
    } else if parts.len() == 1 {
        parts[0]
    } else {
        join_with(parts.drop_last(), sep).push(sep) + parts.last()
    }
}

/// How many pieces a paragraph of `len` characters is cut into at width `w`:
/// one for a paragraph that fits, else `len / w` rounded up.
pub open spec fn chunk_count(len: nat, w: nat) -> nat {
    if w == 0 || len <= w {
        1
    } else {
        ((len + w - 1) / (w as int)) as nat
    }
}

/// Where piece `k` of a paragraph of `len` characters ends.
pub open spec fn chunk_end(len: nat, w: nat, k: int) -> int {
    if w == 0 || (k + 1) * w >= len {
        len as int
    } else {
        (k + 1) * w
    }
}

/// A paragraph cut every `w` characters: piece `k` starts at character
/// `k * w`, and only the last piece may be shorter than `w`.
pub open spec fn chunks(p: Seq<char>, w: nat) -> Seq<Seq<char>> {
    Seq::new(chunk_count(p.len(), w), |k: int| p.subrange(k * w, chunk_end(p.len(), w, k)))
}

/// A text wrapped at width `w`: each paragraph between line breaks is cut on
/// its own, and the pieces of all paragraphs follow each other.
pub open spec fn wrap(text: Seq<char>, w: nat) -> Seq<Seq<char>> {
    split_on(text, '\n').map_values(|p: Seq<char>| chunks(p, w)).flatten()
}

/// Every line followed by a line break, all in one sequence.
pub open spec fn terminated(lines: Seq<Seq<char>>) -> Seq<char> {
    lines.map_values(|l: Seq<char>| l.push('\n')).flatten()
}

/// Splitting gives at least one piece.
pub proof fn lemma_split_on_nonempty(s: Seq<char>, sep: char)
    ensures
        split_on(s, sep).len() >= 1,
    decreases s.len(),
{
    if s.len() > 0 {
        lemma_split_on_nonempty(s.drop_last(), sep);
    }
}

/// A string of `n` copies of `c`.
pub fn repeated(c: char, n: usize) -> (out: String)
    ensures
        out@ == repeat(c, n as nat),
{
    let mut out = String::new();
    let mut i: usize = 0;
    while i < n
        invariant
            i <= n,
            out@ == repeat(c, i as nat),
        decreases n - i,
    {
        out.push(c);
        i += 1;
    }
    out
}

/// Splits `s` at every `sep`.
pub fn split(s: &str, sep: char) -> (parts: Vec<String>)
    ensures
        parts.deep_view() == split_on(s@, sep),
{
    let mut it = s.chars();
    let mut parts: Vec<String> = Vec::new();
    let mut cur = String::new();
    let ghost mut seen: int = 0;
    loop
        invariant
            0 <= seen <= s@.len(),
            it.remaining() == s@.skip(seen),
            parts.deep_view().push(cur@) == split_on(s@.take(seen), sep),
        ensures
            parts.deep_view().push(cur@) == split_on(s@, sep),
        decreases s@.len() - seen,
    {
        match it.next() {
            Some(c) => {
                proof {
                    let before = s@.take(seen);
                    let after = s@.take(seen + 1);
                    assert(after.drop_last() == before);
                    assert(after.last() == c);
                    lemma_split_on_nonempty(before, sep);
                }
                if c == sep {
                    let ghost done = parts.deep_view();
                    let ghost piece = cur@;
                    parts.push(cur);
                    cur = String::new();
                    assert(parts.deep_view() == done.push(piece));
                } else {
                    cur.push(c);
                }
                proof {
                    seen = seen + 1;
                }
            },
            None => {
                assert(s@.take(seen) == s@);
                break ;
            },
        }
    }
    let ghost done = parts.deep_view();
    let ghost last = cur@;
    parts.push(cur);
    assert(parts.deep_view() == done.push(last));
    parts
}

/// Joins the pieces with one `sep` between each two neighbours.
pub fn join(parts: &Vec<String>, sep: char) -> (out: String)
    ensures
        out@ == join_with(parts.deep_view(), sep),
{
    let mut out = String::new();
    let mut i: usize = 0;
    while i < parts.len()
        invariant
            i <= parts.len(),
            out@ == join_with(parts.deep_view().take(i as int), sep),
        decreases parts.len() - i,
    {
        proof {
            let upto = parts.deep_view().take(i + 1);
            assert(upto.drop_last() == parts.deep_view().take(i as int));
            assert(upto.last() == parts[i as int]@);
        }
        if i > 0 {
            out.push(sep);
        }
        out.append(parts[i].as_str());
        i += 1;
    }
    assert(parts.deep_view().take(i as int) == parts.deep_view());
    out
}

/// A paragraph that ends within piece `k` is cut into `k + 1` pieces.
proof fn lemma_chunk_count(len: nat, w: nat, k: int)
    requires
        w > 0,
        k >= 0,
        k > 0 ==> k * w < len,
        len <= k * w + w,
    ensures
        chunk_count(len, w) == k + 1,
{
    if k == 0 {
        assert(k * w == 0);
    } else {
        assert(len > w && (len + w - 1) / (w as int) == k + 1) by (nonlinear_arith)
            requires
                w > 0,
                k > 0,
                k * w < len,
                len <= k * w + w,
        ;
    }
}

/// A paragraph that goes on beyond piece `k` has more pieces, and piece `k`
/// is full.
proof fn lemma_chunk_count_more(len: nat, w: nat, k: int)
    requires
        w > 0,
        k >= 0,
        k * w + w < len,
    ensures
        chunk_count(len, w) > k + 1,
        chunk_end(len, w, k) == k * w + w,
{
    assert(len > w && (len + w - 1) / (w as int) > k + 1 && (k + 1) * w == k * w + w)
        by (nonlinear_arith)
        requires
            w > 0,
            k >= 0,
            k * w + w < len,
    ;
}

/// Cuts a paragraph every `w` characters.
pub fn hard_wrap(p: &str, w: usize) -> (pieces: Vec<String>)
    requires
        w > 0,
    ensures
        pieces.deep_view() == chunks(p@, w as nat),
{
    let len: usize = p.unicode_len();
    let mut pieces: Vec<String> = Vec::new();
    let mut start: usize = 0;
    let ghost mut k: int = 0;
    while len - start > w
        invariant
            w > 0,
            len == p@.len(),
            start <= len,
            k >= 0,
            start == k * w,
            k > 0 ==> k * w < len,
            k <= chunk_count(len as nat, w as nat),
            pieces.deep_view() == chunks(p@, w as nat).take(k),
        decreases len - start,
    {
        proof {
            lemma_chunk_count_more(len as nat, w as nat, k);
        }
        let ghost done = pieces.deep_view();
        let piece = p.substring_char(start, start + w).to_owned();
        pieces.push(piece);
        assert(pieces.deep_view() == done.push(piece@));
        assert(pieces.deep_view() == chunks(p@, w as nat).take(k + 1));
        start = start + w;
        proof {
            k = k + 1;
        }
    }
    proof {
        lemma_chunk_count(len as nat, w as nat, k);
        assert((k + 1) * w == k * w + w) by (nonlinear_arith);
    }
    let ghost done = pieces.deep_view();
    let piece = p.substring_char(start, len).to_owned();
    pieces.push(piece);
    assert(pieces.deep_view() == done.push(piece@));
    assert(pieces.deep_view() == chunks(p@, w as nat));
    pieces
}

/// Wraps a text at width `w`, paragraph by paragraph.
pub fn wrap_lines(text: &str, w: usize) -> (lines: Vec<String>)
    requires
        w > 0,
    ensures
        lines.deep_view() == wrap(text@, w as nat),
{
    let paragraphs = split(text, '\n');
    let mut lines: Vec<String> = Vec::new();
    let ghost cut = |p: Seq<char>| chunks(p, w as nat);
    let mut i: usize = 0;
    while i < paragraphs.len()
        invariant
            w > 0,
            i <= paragraphs.len(),
            paragraphs.deep_view() == split_on(text@, '\n'),
            cut == (|p: Seq<char>| chunks(p, w as nat)),
            lines.deep_view() == paragraphs.deep_view().take(i as int).map_values(cut).flatten(),
        decreases paragraphs.len() - i,
    {
        let ghost done = lines.deep_view();
        let mut pieces = hard_wrap(paragraphs[i].as_str(), w);
        let ghost added = pieces.deep_view();
        lines.append(&mut pieces);
        proof {
            assert(lines.deep_view() == done + added);
            let before = paragraphs.deep_view().take(i as int).map_values(cut);
            let after = paragraphs.deep_view().take(i + 1).map_values(cut);
            assert(after == before.push(added));
            before.lemma_flatten_push(added);
        }
        i += 1;
    }
    assert(paragraphs.deep_view().take(i as int) == paragraphs.deep_view());
    lines
}

/// All lines in one string, each followed by a line break.
pub fn join_terminated(lines: &Vec<String>) -> (out: String)
    ensures
        out@ == terminated(lines.deep_view()),
{
    let mut out = String::new();
    let ghost end = |l: Seq<char>| l.push('\n');
    let mut i: usize = 0;
    while i < lines.len()
        invariant
            i <= lines.len(),
            end == (|l: Seq<char>| l.push('\n')),
            out@ == lines.deep_view().take(i as int).map_values(end).flatten(),
        decreases lines.len() - i,
    {
        proof {
            let before = lines.deep_view().take(i as int).map_values(end);
            let after = lines.deep_view().take(i + 1).map_values(end);
            assert(after == before.push(lines[i as int]@.push('\n')));
            before.lemma_flatten_push(lines[i as int]@.push('\n'));
        }
        out.append(lines[i].as_str());
        out.push('\n');
        i += 1;
    }
    assert(lines.deep_view().take(i as int) == lines.deep_view());
    out
}

/// Every character of `piece` occurs in `s`.
pub open spec fn drawn_from(piece: Seq<char>, s: Seq<char>) -> bool {
    forall|j: int| 0 <= j < piece.len() ==> s.contains(#[trigger] piece[j])
}

/// Joining what `split_on` gave with the same separator gives the sequence
/// back.
pub proof fn lemma_join_split(s: Seq<char>, sep: char)
    ensures
        join_with(split_on(s, sep), sep) == s,
    decreases s.len(),
{
    if s.len() > 0 {
        let head = split_on(s.drop_last(), sep);
        lemma_split_on_nonempty(s.drop_last(), sep);
        lemma_join_split(s.drop_last(), sep);
        if s.last() == sep {
            let all = head.push(Seq::<char>::empty());
            assert(all.drop_last() == head);
            assert(join_with(all, sep) == s.drop_last().push(sep) + Seq::<char>::empty());
            assert(s.drop_last().push(sep) == s);
        } else {
            let grown = head.last().push(s.last());
            let all = head.drop_last().push(grown);
            assert(all.drop_last() == head.drop_last());
            if head.len() == 1 {
                assert(join_with(all, sep) == grown);
                assert(join_with(head, sep) == head.last());
            } else {
                assert(join_with(all, sep) == join_with(head.drop_last(), sep).push(sep) + grown);
                assert(join_with(head, sep) == join_with(head.drop_last(), sep).push(sep)
                    + head.last());
                assert(join_with(head.drop_last(), sep).push(sep) + grown == (join_with(
                    head.drop_last(),
                    sep,
                ).push(sep) + head.last()).push(s.last()));
            }
            assert(s.drop_last().push(s.last()) == s);
        }
    }
}

/// No piece that `split_on` gives holds the separator, and every character
/// of a piece occurs in the sequence that was split.
pub proof fn lemma_split_pieces(s: Seq<char>, sep: char)
    ensures
        forall|i: int|
            0 <= i < split_on(s, sep).len() ==> !(#[trigger] split_on(s, sep)[i]).contains(sep),
        forall|i: int|
            0 <= i < split_on(s, sep).len() ==> drawn_from(#[trigger] split_on(s, sep)[i], s),
    decreases s.len(),
{
    if s.len() > 0 {
        let head = split_on(s.drop_last(), sep);
        let all = split_on(s, sep);
        lemma_split_on_nonempty(s.drop_last(), sep);
        lemma_split_pieces(s.drop_last(), sep);
        assert forall|i: int| 0 <= i < all.len() implies !(#[trigger] all[i]).contains(sep)
            && drawn_from(all[i], s) by {
            if i < head.len() - 1 || (s.last() == sep && i < head.len()) {
                assert(all[i] == head[i]);
                assert forall|j: int| 0 <= j < all[i].len() implies s.contains(
                    #[trigger] all[i][j],
                ) by {
                    assert(s.drop_last().contains(head[i][j]));
                    let k = choose|k: int|
                        0 <= k < s.drop_last().len() && s.drop_last()[k] == head[i][j];
                    assert(s[k] == all[i][j]);
                }
            } else if s.last() == sep {
                assert(all[i] == Seq::<char>::empty());
            } else {
                let last = head.last();
                assert(all[i] == last.push(s.last()));
                assert forall|j: int| 0 <= j < all[i].len() implies s.contains(
                    #[trigger] all[i][j],
                ) by {
                    if j < last.len() {
                        assert(s.drop_last().contains(last[j]));
                        let k = choose|k: int|
                            0 <= k < s.drop_last().len() && s.drop_last()[k] == last[j];
                        assert(s[k] == all[i][j]);
                    } else {
                        assert(s[s.len() - 1] == all[i][j]);
                    }
                }
                if all[i].contains(sep) {
                    let j = choose|j: int| 0 <= j < all[i].len() && all[i][j] == sep;
                    if j < last.len() {
                        assert(last[j] == sep);
                        assert(last.contains(sep));
                    }
                }
            }
        }
    }
}

/// A paragraph is cut into at least one piece.
pub proof fn lemma_chunk_count_positive(len: nat, w: nat)
    ensures
        chunk_count(len, w) >= 1,
{
    if w > 0 && len > w {
        assert((len + w - 1) / (w as int) >= 1) by (nonlinear_arith)
            requires
                w > 0,
                len > w,
        ;
    }
}

/// Where the pieces of a paragraph start and end: piece `k` starts at
/// character `k * w`; every piece but the last has `w` characters, and the
/// last ends where the paragraph ends.
pub proof fn lemma_chunk_bounds(len: nat, w: nat, k: int)
    requires
        w > 0,
        0 <= k < chunk_count(len, w),
    ensures
        0 <= k * w <= chunk_end(len, w, k) <= len,
        chunk_end(len, w, k) - k * w <= w,
        k > 0 ==> k * w < len,
        k + 1 < chunk_count(len, w) ==> chunk_end(len, w, k) == k * w + w,
        k + 1 == chunk_count(len, w) ==> chunk_end(len, w, k) == len,
{
    if len <= w {
        assert(k == 0);
        assert(k * w == 0);
        assert((k + 1) * w == w) by (nonlinear_arith)
            requires
                k == 0,
        ;
    } else {
        let n = (len + w - 1) / (w as int);
        assert(n * w <= len + w - 1 && n * w > len - 1 && (k + 1) * w == k * w + w && k * w >= 0
            && (k < n ==> k * w + w <= n * w)) by (nonlinear_arith)
            requires
                w > 0,
                k >= 0,
                n == (len + w - 1) / (w as int),
        ;
        if k + 1 < n {
            assert((k + 1) * w + w <= n * w) by (nonlinear_arith)
                requires
                    w > 0,
                    k + 1 < n,
            ;
        }
    }
}

/// The pieces of a paragraph, one after the other, are the paragraph.
pub proof fn lemma_chunks_flatten(p: Seq<char>, w: nat)
    requires
        w > 0,
    ensures
        chunks(p, w).flatten() == p,
{
    let all = chunks(p, w);
    let n = all.len() as int;
    lemma_chunk_count_positive(p.len(), w);
    lemma_chunk_prefix(p, w, n);
    assert(all.take(n) == all);
    lemma_chunk_bounds(p.len(), w, n - 1);
    assert(p.take(p.len() as int) == p);
}

/// The first `k` pieces put together are the paragraph up to the end of
/// piece `k - 1`.
proof fn lemma_chunk_prefix(p: Seq<char>, w: nat, k: int)
    requires
        w > 0,
        0 <= k <= chunk_count(p.len(), w),
    ensures
        k == 0 ==> chunks(p, w).take(k).flatten() == Seq::<char>::empty(),
        k > 0 ==> chunks(p, w).take(k).flatten() == p.take(chunk_end(p.len(), w, k - 1)),
    decreases k,
{
    let all = chunks(p, w);
    if k == 0 {
        assert(all.take(0) == Seq::<Seq<char>>::empty());
    } else {
        lemma_chunk_prefix(p, w, k - 1);
        lemma_chunk_bounds(p.len(), w, k - 1);
        let before = all.take(k - 1);
        assert(all.take(k) == before.push(all[k - 1]));
        before.lemma_flatten_push(all[k - 1]);
        if k == 1 {
            assert((k - 1) * w == 0);
            assert(before.flatten() + all[0] == p.take(chunk_end(p.len(), w, 0)));
        } else {
            lemma_chunk_bounds(p.len(), w, k - 2);
            assert((k - 2) * w + w == (k - 1) * w) by (nonlinear_arith);
            assert(p.take((k - 1) * w) + p.subrange((k - 1) * w, chunk_end(p.len(), w, k - 1))
                == p.take(chunk_end(p.len(), w, k - 1)));
        }
    }
}

/// What holds of every element of every part holds of every element of the
/// parts put together, and the other way round.
pub proof fn lemma_flatten_all<A>(parts: Seq<Seq<A>>, pred: spec_fn(A) -> bool)
    ensures
        (forall|i: int, j: int|
            0 <= i < parts.len() && 0 <= j < parts[i].len() ==> pred(#[trigger] parts[i][j]))
            <==> (forall|k: int| 0 <= k < parts.flatten().len() ==> pred(#[trigger] parts.flatten()[k])),
    decreases parts.len(),
{
    if parts.len() == 0 {
    } else {
        let init = parts.drop_last();
        let last = parts.last();
        lemma_flatten_all(init, pred);
        assert(parts == init.push(last));
        init.lemma_flatten_push(last);
        let flat = parts.flatten();
        assert(flat == init.flatten() + last);
        if forall|i: int, j: int|
            0 <= i < parts.len() && 0 <= j < parts[i].len() ==> pred(#[trigger] parts[i][j]) {
            assert forall|i: int, j: int|
                0 <= i < init.len() && 0 <= j < init[i].len() implies pred(
                #[trigger] init[i][j],
            ) by {
                assert(init[i][j] == parts[i][j]);
            }
            assert forall|k: int| 0 <= k < flat.len() implies pred(#[trigger] flat[k]) by {
                if k < init.flatten().len() {
                    assert(flat[k] == init.flatten()[k]);
                } else {
                    assert(flat[k] == parts[parts.len() - 1][k - init.flatten().len()]);
                }
            }
        }
        if forall|k: int| 0 <= k < flat.len() ==> pred(#[trigger] flat[k]) {
            assert forall|k: int| 0 <= k < init.flatten().len() implies pred(
                #[trigger] init.flatten()[k],
            ) by {
                assert(init.flatten()[k] == flat[k]);
            }
            assert forall|i: int, j: int|
                0 <= i < parts.len() && 0 <= j < parts[i].len() implies pred(
                #[trigger] parts[i][j],
            ) by {
                if i < init.len() {
                    assert(parts[i][j] == init[i][j]);
                } else {
                    assert(parts[i][j] == flat[init.flatten().len() + j]);
                }
            }
        }
    }
}

/// Wrapping at a positive width gives lines of at most that many characters,
/// each made of characters of the text.
pub proof fn lemma_wrap_lines(text: Seq<char>, w: nat)
    requires
        w > 0,
    ensures
        wrap(text, w).len() >= 1,
        forall|i: int| 0 <= i < wrap(text, w).len() ==> (#[trigger] wrap(text, w)[i]).len() <= w,
        forall|i: int| 0 <= i < wrap(text, w).len() ==> drawn_from(#[trigger] wrap(text, w)[i], text),
{
    let paragraphs = split_on(text, '\n');
    let cut = |p: Seq<char>| chunks(p, w);
    let parts = paragraphs.map_values(cut);
    let fits = |line: Seq<char>| line.len() <= w && drawn_from(line, text);
    lemma_split_on_nonempty(text, '\n');
    lemma_split_pieces(text, '\n');
    assert forall|i: int, j: int|
        0 <= i < parts.len() && 0 <= j < parts[i].len() implies fits(#[trigger] parts[i][j]) by {
        let p = paragraphs[i];
        lemma_chunk_bounds(p.len(), w, j);
        let line = parts[i][j];
        assert(line == p.subrange(j * w, chunk_end(p.len(), w, j)));
        assert forall|x: int| 0 <= x < line.len() implies text.contains(#[trigger] line[x]) by {
            assert(line[x] == p[j * w + x]);
            assert(text.contains(p[j * w + x]));
        }
    }
    lemma_flatten_all(parts, fits);
    assert forall|i: int| 0 <= i < wrap(text, w).len() implies (#[trigger] wrap(text, w)[i]).len()
        <= w && drawn_from(wrap(text, w)[i], text) by {
        assert(fits(parts.flatten()[i]));
    }
    lemma_chunk_count_positive(paragraphs[0].len(), w);
    assert(parts[0].len() >= 1);
    parts.lemma_flatten_length_ge_single_element_length(0);
    parts.lemma_flatten_and_flatten_alt_are_equivalent();
}

} // verus!
