//! Terminal text layout: display widths, line wrapping, padding and small
//! formatting helpers used by the pages.
use vstd::prelude::*;
use crate::strings::{chars_of, string_of, push_str, is_ascii_char, ascii_lower, ascii_lower_char};

verus! {

// ===== display width =====

/// Columns taken by one character: ASCII takes one, everything else two.
pub open spec fn char_width(c: char) -> nat {
    if is_ascii_char(c) { 1 } else { 2 }
}

/// Columns taken by a character sequence.
pub open spec fn seq_width(s: Seq<char>) -> nat
    decreases s.len(),
{
    if s.len() == 0 { 0 } else { seq_width(s.drop_last()) + char_width(s.last()) }
}

pub proof fn lemma_seq_width_push(s: Seq<char>, c: char)
    ensures
        seq_width(s.push(c)) == seq_width(s) + char_width(c),
{
    assert(s.push(c).drop_last() =~= s);
}

pub proof fn lemma_seq_width_prefix(s: Seq<char>, i: int)
    requires
        0 <= i <= s.len(),
    ensures
        seq_width(s.take(i)) <= seq_width(s),
    decreases s.len() - i,
{
    if i < s.len() {
        lemma_seq_width_prefix(s, i + 1);
        assert(s.take(i + 1) =~= s.take(i).push(s[i]));
        lemma_seq_width_push(s.take(i), s[i]);
    } else {
        assert(s.take(i) =~= s);
    }
}

fn char_cols(c: char) -> (w: usize)
    ensures
        w == char_width(c),
{
    if (c as u32) < 128 { 1 } else { 2 }
}

/// Display width of `s`: ASCII characters count one column, all others two.
pub fn display_width(s: &str) -> (w: usize)
    requires
        seq_width(s@) <= usize::MAX,
    ensures
        w == seq_width(s@),
{
    let v = chars_of(s);
    let mut w: usize = 0;
    let mut i: usize = 0;
    while i < v.len()
        invariant
            v@ == s@,
            i <= v.len(),
            seq_width(s@) <= usize::MAX,
            w == seq_width(v@.take(i as int)),
        decreases v.len() - i,
    {
        proof {
            assert(v@.take(i as int + 1) =~= v@.take(i as int).push(v@[i as int]));
            lemma_seq_width_push(v@.take(i as int), v@[i as int]);
            lemma_seq_width_prefix(v@, i as int + 1);
        }
        w = w + char_cols(v[i]);
        i = i + 1;
    }
    proof {
        assert(v@.take(v@.len() as int) =~= v@);
    }
    w
}

/// `s` followed by as many spaces as its display width falls short of `width`.
pub open spec fn padded(s: Seq<char>, width: nat) -> Seq<char> {
    let pad: nat = if seq_width(s) < width { (width - seq_width(s)) as nat } else { 0 };
    s + Seq::new(pad, |i: int| ' ')
}

/// Pads `s` with spaces up to `width` display columns.
pub fn pad_to(s: &str, width: usize) -> (r: String)
    requires
        seq_width(s@) <= usize::MAX,
    ensures
        r@ == padded(s@, width as nat),
{
    let w = display_width(s);
    let pad: usize = if w < width { width - w } else { 0 };
    let mut r = String::new();
    push_str(&mut r, s);
    let mut i: usize = 0;
    while i < pad
        invariant
            i <= pad,
            r@ == s@ + Seq::new(i as nat, |k: int| ' '),
        decreases pad - i,
    {
        r.push(' ');
        i = i + 1;
        proof {
            assert(r@ =~= s@ + Seq::new(i as nat, |k: int| ' '));
        }
    }
    r
}

// ===== wrapping by display width =====

/// Rows of `line` wrapped greedily at `width` columns, character by character:
/// a character goes on the current row unless it would overflow a non-empty row.
pub open spec fn wrap_rows(line: Seq<char>, width: nat) -> Seq<Seq<char>>
    decreases line.len(),
{
    if line.len() == 0 {
        seq![Seq::<char>::empty()]
    } else {
        let prev = wrap_rows(line.drop_last(), width);
        let c = line.last();
        let cur = prev.last();
        if seq_width(cur) + char_width(c) > width && cur.len() > 0 {
            prev.push(seq![c])
        } else {
            prev.update(prev.len() - 1, cur.push(c))
        }
    }
}

/// Rows produced for one input line: unchanged at width 0, else wrapped.
pub open spec fn line_rows(line: Seq<char>, width: nat) -> Seq<Seq<char>> {
    if width == 0 { seq![line] } else { wrap_rows(line, width) }
}

/// All rows of all lines, in order.
pub open spec fn wrap_all(lines: Seq<Seq<char>>, width: nat) -> Seq<Seq<char>>
    decreases lines.len(),
{
    if lines.len() == 0 {
        seq![]
    } else {
        wrap_all(lines.drop_last(), width) + line_rows(lines.last(), width)
    }
}

/// Concatenation of a sequence of rows.
pub open spec fn concat(rows: Seq<Seq<char>>) -> Seq<char>
    decreases rows.len(),
{
    if rows.len() == 0 { seq![] } else { concat(rows.drop_last()) + rows.last() }
}

/// Wrapping loses and adds nothing, every row fits in `width` unless it is a
/// single character, and only the first row may be empty (then it is the only one).
pub proof fn lemma_wrap_rows(line: Seq<char>, width: nat)
    requires
        width > 0,
    ensures
        wrap_rows(line, width).len() >= 1,
        concat(wrap_rows(line, width)) == line,
        forall|k: int| 0 <= k < wrap_rows(line, width).len() ==>
            seq_width(#[trigger] wrap_rows(line, width)[k]) <= width
                || wrap_rows(line, width)[k].len() == 1,
        forall|k: int| 0 <= k < wrap_rows(line, width).len() && (line.len() > 0) ==>
            (#[trigger] wrap_rows(line, width)[k]).len() > 0,
    decreases line.len(),
{
    if line.len() > 0 {
        let prev = wrap_rows(line.drop_last(), width);
        lemma_wrap_rows(line.drop_last(), width);
        let c = line.last();
        let cur = prev.last();
        let rows = wrap_rows(line, width);
        if seq_width(cur) + char_width(c) > width && cur.len() > 0 {
            assert(rows.drop_last() =~= prev);
            assert(seq_width(seq![c]) == char_width(c)) by {
                lemma_seq_width_push(Seq::<char>::empty(), c);
                assert(Seq::<char>::empty().push(c) =~= seq![c]);
            }
            assert(rows.last() == seq![c]);
            assert(concat(rows) == concat(prev) + seq![c]);
            assert(line =~= line.drop_last().push(c));
            assert(concat(rows) =~= line);
            assert forall|k: int| 0 <= k < rows.len() && (line.len() > 0) implies (#[trigger] rows[k]).len() > 0 by {
                if k < prev.len() {
                    if line.drop_last().len() == 0 {
                        assert(prev.len() == 1);
                        assert(prev[k] == cur);
                    }
                }
            }
        } else {
            lemma_seq_width_push(cur, c);
            let last = prev.len() - 1;
            assert(rows.drop_last() =~= prev.drop_last());
            assert(prev.drop_last().push(cur) =~= prev);
            assert(concat(prev) == concat(prev.drop_last()) + cur);
            assert(rows.last() == cur.push(c));
            assert(concat(rows) == concat(prev.drop_last()) + cur.push(c));
            assert(concat(prev.drop_last()) + cur.push(c) =~= (concat(prev.drop_last()) + cur).push(c));
            assert(line =~= line.drop_last().push(c));
            assert(concat(rows) =~= line);
            assert forall|k: int| 0 <= k < rows.len() implies
                seq_width(#[trigger] rows[k]) <= width || rows[k].len() == 1 by {
                if k == last {
                    if cur.len() == 0 {
                        assert(cur.push(c) =~= seq![c]);
                    }
                } else {
                    assert(rows[k] == prev[k]);
                }
            }
            assert forall|k: int| 0 <= k < rows.len() && (line.len() > 0) implies (#[trigger] rows[k]).len() > 0 by {
                if k != last {
                    assert(rows[k] == prev[k]);
                    if line.drop_last().len() == 0 {
                        assert(prev.len() == 1);
                    }
                }
            }
        }
    } else {
        let rows = wrap_rows(line, width);
        assert(rows == seq![Seq::<char>::empty()]);
        assert(rows.drop_last() =~= Seq::<Seq<char>>::empty());
        assert(concat(rows.drop_last()) == Seq::<char>::empty());
        assert(concat(rows) == concat(rows.drop_last()) + rows.last());
        assert(line =~= Seq::<char>::empty());
        assert(concat(rows) =~= line);
    }
}

/// Every row but the last is full: the first character of the next row
/// would not have fitted on it.
pub proof fn lemma_wrap_rows_full(line: Seq<char>, width: nat)
    requires
        width > 0,
    ensures
        forall|k: int| 0 <= k < wrap_rows(line, width).len() - 1 ==> {
            &&& (#[trigger] wrap_rows(line, width)[k + 1]).len() > 0
            &&& seq_width(wrap_rows(line, width)[k]) + char_width(wrap_rows(line, width)[k + 1][0]) > width
        },
    decreases line.len(),
{
    if line.len() > 0 {
        let prev = wrap_rows(line.drop_last(), width);
        lemma_wrap_rows_full(line.drop_last(), width);
        lemma_wrap_rows(line.drop_last(), width);
        let c = line.last();
        let cur = prev.last();
        let rows = wrap_rows(line, width);
        if seq_width(cur) + char_width(c) > width && cur.len() > 0 {
            assert forall|k: int| 0 <= k < rows.len() - 1 implies {
                &&& (#[trigger] rows[k + 1]).len() > 0
                &&& seq_width(rows[k]) + char_width(rows[k + 1][0]) > width
            } by {
                if k < prev.len() - 1 {
                    assert(rows[k] == prev[k] && rows[k + 1] == prev[k + 1]);
                } else {
                    assert(rows[k] == cur && rows[k + 1] == seq![c]);
                }
            }
        } else {
            let last = prev.len() - 1;
            assert forall|k: int| 0 <= k < rows.len() - 1 implies {
                &&& (#[trigger] rows[k + 1]).len() > 0
                &&& seq_width(rows[k]) + char_width(rows[k + 1][0]) > width
            } by {
                assert(rows[k] == prev[k]);
                if k + 1 < last {
                    assert(rows[k + 1] == prev[k + 1]);
                } else {
                    assert(prev[k + 1] == cur);
                    assert(rows[k + 1] == cur.push(c));
                    assert(cur.push(c)[0] == cur[0]);
                }
            }
        }
    }
}

proof fn lemma_wrap_all_push(lines: Seq<Seq<char>>, line: Seq<char>, width: nat)
    ensures
        wrap_all(lines.push(line), width) == wrap_all(lines, width) + line_rows(line, width),
{
    assert(lines.push(line).drop_last() =~= lines);
}

/// Wraps `line` at `width` (> 0) columns into rows appended to `out`.
fn wrap_one(out: &mut Vec<String>, line: &String, width: usize)
    requires
        width > 0,
    ensures
        final(out)@.map_values(|s: String| s@) == old(out)@.map_values(|s: String| s@) + wrap_rows(line@, width as nat),
{
    let v = chars_of(line.as_str());
    let ghost base = old(out)@.map_values(|s: String| s@);
    let mut current = String::new();
    let mut used: usize = 0;
    let mut cur_len: usize = 0;
    let mut i: usize = 0;
    while i < v.len()
        invariant
            v@ == line@,
            cur_len == current@.len(),
            cur_len <= i,
            width > 0,
            i <= v.len(),
            used == seq_width(current@),
            used <= width || current@.len() == 1,
            base == old(out)@.map_values(|s: String| s@),
            out@.map_values(|s: String| s@) + seq![current@] == base + wrap_rows(v@.take(i as int), width as nat),
        decreases v.len() - i,
    {
        let c = v[i];
        let cw = char_cols(c);
        let ghost prefix = v@.take(i as int);
        let ghost prev = wrap_rows(prefix, width as nat);
        proof {
            assert(v@.take(i as int + 1).drop_last() =~= prefix);
            assert(v@.take(i as int + 1).last() == c);
            assert(prev.last() == current@) by {
                let lhs = out@.map_values(|s: String| s@) + seq![current@];
                assert(lhs.last() == current@);
                if prev.len() == 0 {
                    lemma_wrap_rows_nonempty(prefix, width as nat);
                }
                assert((base + prev).last() == prev.last()) by {
                    lemma_wrap_rows_nonempty(prefix, width as nat);
                }
            }
            lemma_wrap_rows_nonempty(prefix, width as nat);
        }
        let over = if used > width { true } else { cw > width - used };
        if over && cur_len > 0 {
            let ghost old_out = out@.map_values(|s: String| s@);
            let ghost cur_old = current@;
            proof {
                assert(old_out.push(cur_old) =~= old_out + seq![cur_old]);
            }
            out.push(current);
            current = String::new();
            used = 0;
            proof {
                assert(out@.map_values(|s: String| s@) =~= old_out.push(prev.last()));
                assert(wrap_rows(v@.take(i as int + 1), width as nat) == prev.push(seq![c]));
            }
            current.push(c);
            used = cw;
            cur_len = 1;
            proof {
                assert(current@ =~= seq![c]);
                assert(seq_width(seq![c]) == char_width(c)) by {
                    lemma_seq_width_push(Seq::<char>::empty(), c);
                    assert(Seq::<char>::empty().push(c) =~= seq![c]);
                }
                assert(out@.map_values(|s: String| s@) == base + prev);
                assert(out@.map_values(|s: String| s@) + seq![current@]
                    =~= (base + prev).push(seq![c]));
                assert((base + prev).push(seq![c]) =~= base + prev.push(seq![c]));
            }
        } else {
            let ghost cur0 = current@;
            proof {
                lemma_seq_width_push(cur0, c);
                assert(wrap_rows(v@.take(i as int + 1), width as nat) == prev.update(prev.len() - 1, cur0.push(c)));
            }
            current.push(c);
            used = used + cw;
            cur_len = cur_len + 1;
            proof {
                let o = out@.map_values(|s: String| s@);
                let lhs0 = o + seq![cur0];
                assert(lhs0 == base + prev);
                assert(o + seq![current@] =~= lhs0.update(lhs0.len() - 1, current@));
                assert((base + prev).update((base + prev).len() - 1, current@)
                    =~= base + prev.update(prev.len() - 1, cur0.push(c)));
                if cur0.len() == 0 {
                    assert(current@ =~= seq![c]);
                }
            }
        }
        i = i + 1;
    }
    let ghost before = out@.map_values(|s: String| s@);
    out.push(current);
    proof {
        assert(v@.take(v@.len() as int) =~= v@);
        assert(out@.map_values(|s: String| s@) =~= before + seq![current@]);
    }
}

proof fn lemma_wrap_rows_nonempty(line: Seq<char>, width: nat)
    ensures
        wrap_rows(line, width).len() >= 1,
    decreases line.len(),
{
    if line.len() > 0 {
        lemma_wrap_rows_nonempty(line.drop_last(), width);
    }
}

/// Wraps every line at `width` display columns, one character at a time;
/// an empty line stays as one empty row and width 0 leaves lines unchanged.
pub fn wrap_lines(lines: &Vec<String>, width: usize) -> (out: Vec<String>)
    ensures
        out@.map_values(|s: String| s@) == wrap_all(lines@.map_values(|s: String| s@), width as nat),
{
    let mut out: Vec<String> = Vec::new();
    let mut i: usize = 0;
    while i < lines.len()
        invariant
            i <= lines.len(),
            out@.map_values(|s: String| s@) == wrap_all(lines@.map_values(|s: String| s@).take(i as int), width as nat),
        decreases lines.len() - i,
    {
        let ghost all = lines@.map_values(|s: String| s@);
        proof {
            assert(all.take(i as int + 1) =~= all.take(i as int).push(lines@[i as int]@));
            lemma_wrap_all_push(all.take(i as int), lines@[i as int]@, width as nat);
        }
        if width == 0 {
            let ghost before = out@.map_values(|s: String| s@);
            out.push(lines[i].clone());
            proof {
                assert(out@.map_values(|s: String| s@) =~= before + seq![lines@[i as int]@]);
            }
        } else {
            wrap_one(&mut out, &lines[i], width);
        }
        i = i + 1;
    }
    proof {
        let all = lines@.map_values(|s: String| s@);
        assert(all.take(all.len() as int) =~= all);
    }
    out
}

// ===== fixed-size chunks =====

/// `text` cut into pieces of `width` characters joined by newlines.
pub open spec fn chunked(s: Seq<char>, width: nat) -> Seq<char>
    decreases s.len(),
{
    if width == 0 || s.len() <= width {
        s
    } else {
        s.take(width as int) + seq!['\n'] + chunked(s.skip(width as int), width)
    }
}

/// Splits `text` into chunks of `width` characters and joins them with `\n`.
pub fn wrap_text(text: &str, width: usize) -> (r: String)
    requires
        width > 0,
    ensures
        r@ == chunked(text@, width as nat),
{
    let v = chars_of(text);
    let mut r = String::new();
    let mut lo: usize = 0;
    proof {
        assert(v@.skip(0) =~= v@);
        assert(r@ + chunked(v@.skip(0), width as nat) =~= chunked(text@, width as nat));
    }
    while v.len() - lo > width
        invariant
            v@ == text@,
            width > 0,
            lo <= v.len(),
            r@ + chunked(v@.skip(lo as int), width as nat) == chunked(text@, width as nat),
        decreases v.len() - lo,
    {
        let piece = string_of(&v, lo, lo + width);
        push_str(&mut r, piece.as_str());
        r.push('\n');
        proof {
            let rest = v@.skip(lo as int);
            assert(rest.take(width as int) =~= v@.subrange(lo as int, lo + width));
            assert(rest.skip(width as int) =~= v@.skip(lo + width));
            assert(chunked(rest, width as nat) == rest.take(width as int) + seq!['\n'] + chunked(rest.skip(width as int), width as nat));
        }
        lo = lo + width;
        proof {
            assert(r@ + chunked(v@.skip(lo as int), width as nat) =~= chunked(text@, width as nat));
        }
    }
    let tail = string_of(&v, lo, v.len());
    push_str(&mut r, tail.as_str());
    proof {
        assert(v@.subrange(lo as int, v@.len() as int) =~= v@.skip(lo as int));
    }
    r
}

// ===== small formatting helpers =====

/// "是" for true, "否" for false.
pub fn on_off(v: bool) -> (r: String)
    ensures
        v ==> r@ == "是"@,
        !v ==> r@ == "否"@,
{
    if v {
        crate::strings::to_owned_string("是")
    } else {
        crate::strings::to_owned_string("否")
    }
}

/// Index of the first entry of `values` equal to `cur`, if any.
pub open spec fn position_of(values: Seq<&str>, cur: Seq<char>) -> Option<int>
    decreases values.len(),
{
    if values.len() == 0 {
        None
    } else if values[0]@ == cur {
        Some(0)
    } else {
        match position_of(values.drop_first(), cur) {
            Some(i) => Some(i + 1),
            None => None,
        }
    }
}

pub proof fn lemma_position_of(values: Seq<&str>, cur: Seq<char>)
    ensures
        match position_of(values, cur) {
            Some(i) => 0 <= i < values.len() && values[i]@ == cur
                && forall|j: int| 0 <= j < i ==> values[j]@ != cur,
            None => forall|j: int| 0 <= j < values.len() ==> values[j]@ != cur,
        },
    decreases values.len(),
{
    if values.len() > 0 && values[0]@ != cur {
        lemma_position_of(values.drop_first(), cur);
        match position_of(values.drop_first(), cur) {
            Some(i) => {
                assert forall|j: int| 0 <= j < i + 1 implies values[j]@ != cur by {
                    if j > 0 {
                        assert(values[j] == values.drop_first()[j - 1]);
                    }
                }
            }
            None => {
                assert forall|j: int| 0 <= j < values.len() implies values[j]@ != cur by {
                    if j > 0 {
                        assert(values[j] == values.drop_first()[j - 1]);
                    }
                }
            }
        }
    }
}

/// The value after `cur` in `values`, wrapping round; the first value when
/// `cur` is not one of them.
pub fn cycle<'a>(values: &[&'a str], cur: &str) -> (r: &'a str)
    requires
        values@.len() > 0,
    ensures
        r == (match position_of(values@, cur@) {
            Some(i) => values@[(i + 1) % (values@.len() as int)],
            None => values@[0],
        }),
{
    let mut i: usize = 0;
    while i < values.len()
        invariant
            i <= values@.len(),
            forall|j: int| 0 <= j < i ==> values@[j]@ != cur@,
        decreases values@.len() - i,
    {
        if crate::strings::str_eq(values[i], cur) {
            proof {
                lemma_position_of(values@, cur@);
                lemma_position_unique(values@, cur@, i as int);
            }
            let next = (i + 1) % values.len();
            return values[next];
        }
        i = i + 1;
    }
    proof {
        lemma_position_of(values@, cur@);
        match position_of(values@, cur@) {
            Some(k) => { assert(values@[k]@ == cur@); }
            None => {}
        }
    }
    values[0]
}

proof fn lemma_position_unique(values: Seq<&str>, cur: Seq<char>, i: int)
    requires
        0 <= i < values.len(),
        values[i]@ == cur,
        forall|j: int| 0 <= j < i ==> values[j]@ != cur,
        match position_of(values, cur) {
            Some(k) => 0 <= k < values.len() && values[k]@ == cur
                && forall|j: int| 0 <= j < k ==> values[j]@ != cur,
            None => forall|j: int| 0 <= j < values.len() ==> values[j]@ != cur,
        },
    ensures
        position_of(values, cur) == Some(i),
{
    match position_of(values, cur) {
        Some(k) => {
            if k < i {
                assert(values[k]@ != cur);
            } else if i < k {
                assert(values[i]@ != cur);
            }
        }
        None => {
            assert(values[i]@ != cur);
        }
    }
}

/// In a list without repeats every value is found at its own index, so
/// `cycle` from the `i`-th value gives the value after it.
pub proof fn lemma_position_of_distinct(values: Seq<&str>, i: int)
    requires
        0 <= i < values.len(),
        forall|j: int, k: int| 0 <= j < k < values.len() ==> values[j]@ != values[k]@,
    ensures
        position_of(values, values[i]@) == Some(i),
{
    lemma_position_of(values, values[i]@);
    lemma_position_unique(values, values[i]@, i);
}

/// `(select + step)` reduced into `0..len`, the way a cursor wraps round a list.
pub open spec fn wrapped_index(select: int, len: int, step: int) -> int {
    (select + step) % len
}

/// Moves a cursor by `step` inside a list of `len` entries, wrapping round.
pub fn wrap(select: usize, len: usize, step: i32) -> (r: usize)
    requires
        0 < len <= i32::MAX,
        select <= i32::MAX,
        i32::MIN <= select + step <= i32::MAX,
    ensures
        r == wrapped_index(select as int, len as int, step as int),
        r < len,
{
    let t: i64 = select as i64 + step as i64;
    let l: i64 = len as i64;
    if t >= 0 {
        let m: u64 = (t as u64) % (l as u64);
        m as usize
    } else {
        let neg: u64 = (-t) as u64;
        let m: u64 = neg % (l as u64);
        proof {
            lemma_neg_mod(neg as int, l as int, m as int);
        }
        if m == 0 {
            0
        } else {
            (l as u64 - m) as usize
        }
    }
}

/// Moving a cursor by `step` and then by `-step` brings it back to where it was.
pub proof fn lemma_wrap_round_trip(select: int, len: int, step: int)
    requires
        0 < len,
        0 <= select < len,
    ensures
        0 <= wrapped_index(select, len, step) < len,
        wrapped_index(wrapped_index(select, len, step), len, -step) == select,
{
    let x = select + step;
    let q = x / len;
    let a = x % len;
    vstd::arithmetic::div_mod::lemma_fundamental_div_mod(x, len);
    assert(a + (-step) == len * (-q) + select) by (nonlinear_arith)
        requires
            x == len * q + a,
            x == select + step,
    ;
    vstd::arithmetic::div_mod::lemma_mod_multiples_vanish(-q, select, len);
    vstd::arithmetic::div_mod::lemma_small_mod(select as nat, len as nat);
}

proof fn lemma_neg_mod(n: int, l: int, m: int)
    requires
        n > 0,
        l > 0,
        m == n % l,
    ensures
        m == 0 ==> (-n) % l == 0,
        m != 0 ==> (-n) % l == l - m,
{
    let q = n / l;
    assert(n == q * l + m) by (nonlinear_arith)
        requires
            l > 0,
            q == n / l,
            m == n % l,
    ;
    if m == 0 {
        assert((-n) == (-q) * l) by (nonlinear_arith)
            requires
                n == q * l + m,
                m == 0,
        ;
        vstd::arithmetic::div_mod::lemma_mod_multiples_basic(-q, l);
        assert(((-q) * l) % l == 0);
    } else {
        assert(-n == (-q - 1) * l + (l - m)) by (nonlinear_arith)
            requires
                n == q * l + m,
        ;
        assert(0 <= l - m < l);
        vstd::arithmetic::div_mod::lemma_fundamental_div_mod_converse(-n, l, -q - 1, l - m);
    }
}

// ===== identifiers =====

/// The wrapped `char::is_uppercase` decision for `c`.
pub uninterp spec fn spec_is_uppercase(c: char) -> bool;

/// `char::is_uppercase`: whether `c` has the Unicode `Uppercase` property.
/// For ASCII characters this is exactly `'A'..='Z'`, as the documentation shows.
#[verifier::external_body]
fn is_uppercase(c: char) -> (r: bool)
    ensures
        r == spec_is_uppercase(c),
        is_ascii_char(c) ==> (r <==> ('A' <= c && c <= 'Z')),
{
    c.is_uppercase()
}

/// `CamelCase` to `snake_case`: an underscore goes before every uppercase
/// character that is not first and does not follow an underscore already written.
pub open spec fn snake(s: Seq<char>) -> Seq<char>
    decreases s.len(),
{
    if s.len() == 0 {
        seq![]
    } else {
        let prev = snake(s.drop_last());
        let c = s.last();
        if spec_is_uppercase(c) {
            let sep = if s.len() > 1 && !(prev.len() > 0 && prev.last() == '_') {
                prev.push('_')
            } else {
                prev
            };
            sep.push(ascii_lower(c))
        } else {
            prev.push(c)
        }
    }
}

/// `snake` for ASCII text, where the uppercase characters are exactly `A`..=`Z`.
pub open spec fn snake_ascii(s: Seq<char>) -> Seq<char>
    decreases s.len(),
{
    if s.len() == 0 {
        seq![]
    } else {
        let prev = snake_ascii(s.drop_last());
        let c = s.last();
        if 'A' <= c && c <= 'Z' {
            let sep = if s.len() > 1 && !(prev.len() > 0 && prev.last() == '_') {
                prev.push('_')
            } else {
                prev
            };
            sep.push(ascii_lower(c))
        } else {
            prev.push(c)
        }
    }
}

proof fn lemma_snake_ascii(s: Seq<char>)
    requires
        forall|j: int| 0 <= j < s.len() ==> is_ascii_char(#[trigger] s[j]),
        forall|j: int| 0 <= j < s.len() ==> (spec_is_uppercase(#[trigger] s[j]) <==> ('A' <= s[j] && s[j] <= 'Z')),
    ensures
        snake(s) == snake_ascii(s),
    decreases s.len(),
{
    if s.len() > 0 {
        let t = s.drop_last();
        assert forall|j: int| 0 <= j < t.len() implies is_ascii_char(#[trigger] t[j]) by {
            assert(t[j] == s[j]);
        }
        assert forall|j: int| 0 <= j < t.len() implies
            (spec_is_uppercase(#[trigger] t[j]) <==> ('A' <= t[j] && t[j] <= 'Z')) by {
            assert(t[j] == s[j]);
        }
        lemma_snake_ascii(t);
        assert(s.last() == s[s.len() - 1]);
    }
}

/// Converts a type name such as `MihomoLog` to `mihomo_log`.
pub fn to_snake_case(s: &str) -> (r: String)
    ensures
        r@ == snake(s@),
        (forall|j: int| 0 <= j < s@.len() ==> is_ascii_char(#[trigger] s@[j])) ==> r@ == snake_ascii(s@),
{
    let v = chars_of(s);
    let mut out = String::new();
    let mut i: usize = 0;
    while i < v.len()
        invariant
            v@ == s@,
            i <= v.len(),
            out@ == snake(v@.take(i as int)),
            forall|j: int| 0 <= j < i ==> (is_ascii_char(#[trigger] v@[j])
                ==> (spec_is_uppercase(v@[j]) <==> ('A' <= v@[j] && v@[j] <= 'Z'))),
        decreases v.len() - i,
    {
        let c = v[i];
        proof {
            assert(v@.take(i as int + 1).drop_last() =~= v@.take(i as int));
        }
        let up = is_uppercase(c);
        if up {
            let ends_us = last_is_underscore(&out);
            if i > 0 && !ends_us {
                out.push('_');
            }
            out.push(ascii_lower_char(c));
        } else {
            out.push(c);
        }
        i = i + 1;
    }
    proof {
        assert(v@.take(v@.len() as int) =~= v@);
        if forall|j: int| 0 <= j < s@.len() ==> is_ascii_char(#[trigger] s@[j]) {
            assert forall|j: int| 0 <= j < v@.len() implies
                (spec_is_uppercase(#[trigger] v@[j]) <==> ('A' <= v@[j] && v@[j] <= 'Z')) by {
                assert(is_ascii_char(s@[j]));
            }
            lemma_snake_ascii(v@);
        }
    }
    out
}

fn last_is_underscore(s: &String) -> (r: bool)
    ensures
        r == (s@.len() > 0 && s@.last() == '_'),
{
    let v = chars_of(s.as_str());
    v.len() > 0 && v[v.len() - 1] == '_'
}

} // verus!
