use vstd::prelude::*;
use crate::text::{push_char, chars_of, string_of_range};

verus! {

/// A `\r\n` starts at index `i` of `s`.
pub open spec fn crlf_at(s: Seq<char>, i: int) -> bool {
    0 <= i && i + 1 < s.len() && s[i] == '\r' && s[i + 1] == '\n'
}

/// The index of the first `\r\n` that starts at or after `from`, or the
/// length of `s` where there is none.
pub open spec fn first_crlf(s: Seq<char>, from: int) -> int
    decreases s.len() - from,
{
    if from < 0 || from + 1 >= s.len() {
        s.len() as int
    } else if crlf_at(s, from) {
        from
    } else {
        first_crlf(s, from + 1)
    }
}

/// Where `first_crlf` lands: within bounds, at a `\r\n`, with none before.
pub proof fn lemma_first_crlf(s: Seq<char>, from: int)
    requires
        0 <= from,
    ensures
        first_crlf(s, from) <= s.len(),
        first_crlf(s, from) >= from || first_crlf(s, from) == s.len(),
        first_crlf(s, from) < s.len() ==> crlf_at(s, first_crlf(s, from)),
        forall|p: int| from <= p < first_crlf(s, from) ==> !#[trigger] crlf_at(s, p),
    decreases s.len() - from,
{
    if from + 1 < s.len() && !crlf_at(s, from) {
        lemma_first_crlf(s, from + 1);
    }
}

/// What `str::split("\r\n")` gives: the text up to the first `\r\n`,
/// then the pieces of the rest after it; the whole text when it holds none.
pub open spec fn split_crlf_spec(s: Seq<char>) -> Seq<Seq<char>>
    decreases s.len(),
{
    let k = first_crlf(s, 0);
    if k >= s.len() {
        seq![s]
    } else {
        proof {
            lemma_first_crlf(s, 0);
        }
        seq![s.take(k)] + split_crlf_spec(s.skip(k + 2))
    }
}

proof fn lemma_first_crlf_is(s: Seq<char>, from: int, k: int)
    requires
        0 <= from <= k <= s.len(),
        forall|p: int| from <= p < k ==> !#[trigger] crlf_at(s, p),
        k == s.len() || crlf_at(s, k),
    ensures
        first_crlf(s, from) == k,
    decreases k - from,
{
    if from < k {
        lemma_first_crlf_is(s, from + 1, k);
    }
}

/// Cuts `text` at each `\r\n`, as `str::split("\r\n")` does.
pub fn split_crlf(text: &str) -> (r: Vec<String>)
    ensures
        r@.map_values(|p: String| p@) == split_crlf_spec(text@),
{
    let chars = chars_of(text);
    let ghost s = text@;
    let n = chars.len();
    let mut pieces: Vec<String> = Vec::new();
    let mut j: usize = 0;
    let mut i: usize = 0;
    assert(s.skip(0) =~= s);
    assert(pieces@.map_values(|p: String| p@) + split_crlf_spec(s) =~= split_crlf_spec(s));
    while i < n
        invariant
            chars@ == s,
            n == chars.len(),
            j <= i <= n,
            pieces@.map_values(|p: String| p@) + split_crlf_spec(s.skip(j as int)) == split_crlf_spec(s),
            forall|p: int| j <= p < i ==> !#[trigger] crlf_at(s, p),
        decreases n - i,
    {
        if i + 1 < n && chars[i] == '\r' && chars[i + 1] == '\n' {
            let piece = string_of_range(&chars, j, i);
            let ghost t = s.skip(j as int);
            proof {
                assert forall|p: int| 0 <= p < i - j implies !#[trigger] crlf_at(t, p) by {
                    assert(!crlf_at(s, p + j));
                    assert(t[p] == s[p + j]);
                    assert(p + 1 < t.len() ==> t[p + 1] == s[p + j + 1]);
                }
                assert(crlf_at(t, i - j));
                lemma_first_crlf_is(t, 0, i - j);
                assert(t.take(i - j) =~= s.subrange(j as int, i as int));
                assert(t.skip(i - j + 2) =~= s.skip(i + 2));
            }
            let ghost before = pieces@.map_values(|p: String| p@);
            pieces.push(piece);
            assert(pieces@.map_values(|p: String| p@) =~= before.push(s.subrange(j as int, i as int)));
            j = i + 2;
            i = i + 2;
        } else {
            proof {
                if i + 1 < n {
                    assert(!crlf_at(s, i as int));
                }
            }
            i = i + 1;
        }
    }
    let ghost t = s.skip(j as int);
    proof {
        assert forall|p: int| 0 <= p < t.len() implies !#[trigger] crlf_at(t, p) by {
            if p + 1 < t.len() {
                assert(!crlf_at(s, p + j));
                assert(t[p] == s[p + j]);
                assert(t[p + 1] == s[p + j + 1]);
            }
        }
        lemma_first_crlf_is(t, 0, t.len() as int);
        assert(t =~= s.subrange(j as int, n as int));
    }
    let ghost before = pieces@.map_values(|p: String| p@);
    let last = string_of_range(&chars, j, n);
    pieces.push(last);
    assert(pieces@.map_values(|p: String| p@) =~= before.push(t));
    pieces
}

/// The most lines the log holds.
pub const LOG_CAPACITY: usize = 300;

/// Lines joined with `\r\n` between them.
pub open spec fn join_crlf(lines: Seq<Seq<char>>) -> Seq<char>
    decreases lines.len(),
{
    if lines.len() == 0 {
        Seq::empty()
    } else if lines.len() == 1 {
        lines[0]
    } else {
        join_crlf(lines.drop_last()) + seq!['\r', '\n'] + lines.last()
    }
}

pub open spec fn is_nonempty(line: Seq<char>) -> bool {
    line.len() > 0
}

/// The last `LOG_CAPACITY` entries of `lines` (all of them if fewer).
pub open spec fn keep_last(lines: Seq<Seq<char>>) -> Seq<Seq<char>> {
    if lines.len() > LOG_CAPACITY {
        lines.skip(lines.len() - LOG_CAPACITY)
    } else {
        lines
    }
}

/// The entries of the log after appending `msgs` to the text `current`:
/// the non-empty lines of the text, then the messages, of which the last
/// `LOG_CAPACITY` stay.
pub open spec fn log_entries(current: Seq<char>, msgs: Seq<Seq<char>>) -> Seq<Seq<char>> {
    keep_last(split_crlf_spec(current).filter(|p: Seq<char>| is_nonempty(p)) + msgs)
}

/// The log text after appending `msgs` to the log text `current`.
pub open spec fn merge_log_spec(current: Seq<char>, msgs: Seq<Seq<char>>) -> Seq<char> {
    join_crlf(log_entries(current, msgs))
}

/// Appends `msgs` to the log text `current`: empty lines of the old text
/// are dropped, only the last `LOG_CAPACITY` entries are kept, and they are
/// joined with `\r\n`.
pub fn merge_log(current: &str, msgs: &Vec<String>) -> (r: String)
    ensures
        r@ == merge_log_spec(current@, msgs@.map_values(|m: String| m@)),
{
    let pieces = split_crlf(current);
    let ghost pv = pieces@.map_values(|p: String| p@);
    let ghost mv = msgs@.map_values(|m: String| m@);
    let mut lines: Vec<String> = Vec::new();
    let mut i: usize = 0;
    while i < pieces.len()
        invariant
            i <= pieces.len(),
            pv == pieces@.map_values(|p: String| p@),
            lines@.map_values(|l: String| l@) == pv.take(i as int).filter(|p: Seq<char>| is_nonempty(p)),
        decreases pieces.len() - i,
    {
        let ghost old_lines = lines@;
        assert(pv[i as int] == pieces@[i as int]@);
        assert(pv.take(i + 1).filter(|p: Seq<char>| is_nonempty(p)) == if is_nonempty(pv[i as int]) {
            pv.take(i as int).filter(|p: Seq<char>| is_nonempty(p)).push(pv[i as int])
        } else {
            pv.take(i as int).filter(|p: Seq<char>| is_nonempty(p))
        }) by {
            reveal_with_fuel(Seq::<_>::filter, 1);
            assert(pv.take(i + 1).drop_last() =~= pv.take(i as int));
        }
        if !pieces[i].as_str().is_empty() {
            lines.push(pieces[i].clone());
            assert(lines@.map_values(|l: String| l@) =~= old_lines.map_values(|l: String| l@).push(pv[i as int]));
        }
        assert(lines@.map_values(|l: String| l@) =~= pv.take(i + 1).filter(|p: Seq<char>| is_nonempty(p)));
        i = i + 1;
    }
    assert(pv.take(pieces.len() as int) =~= pv);
    let ghost kept = lines@.map_values(|l: String| l@);
    let mut j: usize = 0;
    while j < msgs.len()
        invariant
            j <= msgs.len(),
            mv == msgs@.map_values(|m: String| m@),
            lines@.map_values(|l: String| l@) == kept + mv.take(j as int),
        decreases msgs.len() - j,
    {
        let ghost old_lines = lines@;
        assert(mv[j as int] == msgs@[j as int]@);
        lines.push(msgs[j].clone());
        assert(lines@.map_values(|l: String| l@) =~= old_lines.map_values(|l: String| l@).push(mv[j as int]));
        assert(lines@.map_values(|l: String| l@) =~= kept + mv.take(j + 1));
        j = j + 1;
    }
    assert(mv.take(msgs.len() as int) =~= mv);
    let ghost all = lines@.map_values(|l: String| l@);
    assert(all == split_crlf_spec(current@).filter(|p: Seq<char>| is_nonempty(p)) + mv);
    let n = lines.len();
    let start: usize = if n > LOG_CAPACITY { n - LOG_CAPACITY } else { 0 };
    let ghost entries = all.subrange(start as int, n as int);
    assert(entries =~= keep_last(all));
    let mut r = String::new();
    let mut k = start;
    while k < n
        invariant
            start <= k <= n == lines.len(),
            all == lines@.map_values(|l: String| l@),
            r@ == join_crlf(all.subrange(start as int, k as int)),
        decreases n - k,
    {
        let ghost before = all.subrange(start as int, k as int);
        let ghost after = all.subrange(start as int, k + 1);
        assert(after.drop_last() =~= before);
        if k > start {
            push_char(&mut r, '\r');
            push_char(&mut r, '\n');
        }
        r.append(lines[k].as_str());
        proof {
            if k == start {
                assert(before.len() == 0);
            }
        }
        assert(r@ =~= join_crlf(after));
        k = k + 1;
    }
    r
}

/// New messages are never lost to the log's limit: when at most
/// `LOG_CAPACITY` are appended at once, the log ends with all of them, in
/// order, and it never holds more than `LOG_CAPACITY` entries.
pub proof fn law_log_keeps_new_messages(current: Seq<char>, msgs: Seq<Seq<char>>)
    requires
        msgs.len() <= LOG_CAPACITY,
    ensures
        log_entries(current, msgs).len() <= LOG_CAPACITY,
        log_entries(current, msgs).len() >= msgs.len(),
        log_entries(current, msgs).skip(log_entries(current, msgs).len() - msgs.len()) == msgs,
{
    let old_lines = split_crlf_spec(current).filter(|p: Seq<char>| is_nonempty(p));
    let all = old_lines + msgs;
    let e = log_entries(current, msgs);
    assert(e.skip(e.len() - msgs.len()) =~= msgs);
}

/// `s` holds no `\r\n`.
pub open spec fn has_no_crlf(s: Seq<char>) -> bool {
    forall|p: int| !#[trigger] crlf_at(s, p)
}

proof fn lemma_split_pieces_have_no_crlf(s: Seq<char>)
    ensures
        forall|i: int| 0 <= i < split_crlf_spec(s).len() ==> has_no_crlf(#[trigger] split_crlf_spec(s)[i]),
    decreases s.len(),
{
    lemma_first_crlf(s, 0);
    let k = first_crlf(s, 0);
    if k >= s.len() {
        assert forall|p: int| !#[trigger] crlf_at(s, p) by {
            if 0 <= p && p + 1 < s.len() {
                assert(p < k);
            }
        }
    } else {
        lemma_split_pieces_have_no_crlf(s.skip(k + 2));
        let head = s.take(k);
        assert forall|p: int| !#[trigger] crlf_at(head, p) by {
            if 0 <= p && p + 1 < head.len() {
                assert(!crlf_at(s, p));
            }
        }
        let rest = split_crlf_spec(s.skip(k + 2));
        assert forall|i: int| 0 <= i < split_crlf_spec(s).len() implies has_no_crlf(#[trigger] split_crlf_spec(s)[i]) by {
            if i > 0 {
                assert(split_crlf_spec(s)[i] == rest[i - 1]);
            }
        }
    }
}

proof fn lemma_join_front(lines: Seq<Seq<char>>)
    requires
        lines.len() >= 2,
    ensures
        join_crlf(lines) == lines[0] + seq!['\r', '\n'] + join_crlf(lines.drop_first()),
    decreases lines.len(),
{
    let crlf = seq!['\r', '\n'];
    if lines.len() == 2 {
        assert(lines.drop_last() =~= seq![lines[0]]);
        assert(lines.drop_first() =~= seq![lines[1]]);
        assert(join_crlf(lines.drop_last()) == lines[0]);
        assert(join_crlf(lines.drop_first()) == lines[1]);
    } else {
        lemma_join_front(lines.drop_last());
        assert(lines.drop_last().drop_first() =~= lines.drop_first().drop_last());
        assert(lines.drop_last()[0] == lines[0]);
        assert(lines.drop_first().last() == lines.last());
        assert(join_crlf(lines.drop_first())
            == join_crlf(lines.drop_first().drop_last()) + crlf + lines.drop_first().last());
        assert(join_crlf(lines) =~= lines[0] + crlf + join_crlf(lines.drop_first()));
    }
}

/// Splitting lines joined with `\r\n` gives the lines back, when none of
/// them holds a `\r\n`.
proof fn lemma_split_join(lines: Seq<Seq<char>>)
    requires
        lines.len() >= 1,
        forall|i: int| 0 <= i < lines.len() ==> has_no_crlf(#[trigger] lines[i]),
    ensures
        split_crlf_spec(join_crlf(lines)) == lines,
    decreases lines.len(),
{
    let l0 = lines[0];
    assert(has_no_crlf(l0));
    if lines.len() == 1 {
        let s = join_crlf(lines);
        assert(s == l0);
        lemma_first_crlf_is(s, 0, s.len() as int);
        assert(split_crlf_spec(s) =~= lines);
    } else {
        lemma_join_front(lines);
        let rest = lines.drop_first();
        assert forall|i: int| 0 <= i < rest.len() implies has_no_crlf(#[trigger] rest[i]) by {
            assert(rest[i] == lines[i + 1]);
        }
        lemma_split_join(rest);
        let s = join_crlf(lines);
        let k = l0.len() as int;
        assert forall|p: int| 0 <= p < k implies !#[trigger] crlf_at(s, p) by {
            assert(s[p] == l0[p]);
            if p + 1 < k {
                assert(s[p + 1] == l0[p + 1]);
                assert(!crlf_at(l0, p));
            } else {
                assert(s[p + 1] == '\r');
            }
        }
        assert(crlf_at(s, k));
        lemma_first_crlf_is(s, 0, k);
        assert(s.take(k) =~= l0);
        assert(s.skip(k + 2) =~= join_crlf(rest));
        assert(split_crlf_spec(s) =~= seq![l0] + rest);
        assert(seq![l0] + rest =~= lines);
    }
}

/// The log text never holds more than `LOG_CAPACITY` lines, and its last
/// lines are the newest messages in order, as many of them as fit: read
/// back by cutting at `\r\n`, the text after appending `msgs` (none of
/// which holds a `\r\n`) has at most `LOG_CAPACITY` lines, the last
/// `min(LOG_CAPACITY, msgs.len())` of which are the last messages.
pub proof fn law_log_text_lines(current: Seq<char>, msgs: Seq<Seq<char>>)
    requires
        forall|i: int| 0 <= i < msgs.len() ==> has_no_crlf(#[trigger] msgs[i]),
    ensures
        ({
            let lines = split_crlf_spec(merge_log_spec(current, msgs));
            let k = if msgs.len() < LOG_CAPACITY { msgs.len() as int } else { LOG_CAPACITY as int };
            &&& lines.len() <= LOG_CAPACITY
            &&& lines.skip(lines.len() - k) == msgs.skip(msgs.len() - k)
        }),
{
    let old_lines = split_crlf_spec(current).filter(|p: Seq<char>| is_nonempty(p));
    let all = old_lines + msgs;
    let entries = log_entries(current, msgs);
    let k = if msgs.len() < LOG_CAPACITY { msgs.len() as int } else { LOG_CAPACITY as int };
    lemma_split_pieces_have_no_crlf(current);
    assert forall|i: int| 0 <= i < old_lines.len() implies has_no_crlf(#[trigger] old_lines[i]) by {
        let pieces = split_crlf_spec(current);
        assert(old_lines.contains(old_lines[i]));
        pieces.lemma_filter_contains_rev(|p: Seq<char>| is_nonempty(p), old_lines[i]);
        assert(pieces.contains(old_lines[i]));
        let j = choose|j: int| 0 <= j < pieces.len() && pieces[j] == old_lines[i];
        assert(has_no_crlf(pieces[j]));
    }
    assert forall|i: int| 0 <= i < all.len() implies has_no_crlf(#[trigger] all[i]) by {
        if i < old_lines.len() {
            assert(all[i] == old_lines[i]);
        } else {
            assert(all[i] == msgs[i - old_lines.len()]);
        }
    }
    assert forall|i: int| 0 <= i < entries.len() implies has_no_crlf(#[trigger] entries[i]) by {
        if all.len() > LOG_CAPACITY {
            assert(entries[i] == all[i + all.len() - LOG_CAPACITY]);
        }
    }
    if entries.len() == 0 {
        let text = join_crlf(entries);
        assert(text.len() == 0);
        lemma_first_crlf_is(text, 0, 0);
        assert(msgs.len() == 0);
        let lines = split_crlf_spec(text);
        assert(lines.skip(lines.len() - k) =~= msgs.skip(msgs.len() - k));
    } else {
        lemma_split_join(entries);
        assert(entries.skip(entries.len() - k) =~= msgs.skip(msgs.len() - k));
    }
}

} // verus!
