//! Synchronised lyrics in the LRC format: time tags, whole lyric files with
//! an optional translation, and the requests that fetch them.
use vstd::prelude::*;
use std::collections::BTreeMap;
use vstd::string::StringExecFns;
use crate::json::{self, Json};
use crate::text::{
    self, chars_of, find_char, parse_u64_range, push_decimal, skip_leading_char, string_from_chars,
    string_of_range, trim_range, same_chars,
};

verus! {

/// One line of lyrics and the moment (milliseconds into the track) from
/// which it is shown.
#[derive(Debug)]
pub struct LyricLine {
    pub time_ms: u64,
    pub text: String,
}

impl Clone for LyricLine {
    fn clone(&self) -> (r: Self)
        ensures
            r.time_ms == self.time_ms,
            r.text@ == self.text@,
    {
        LyricLine { time_ms: self.time_ms, text: self.text.clone() }
    }
}

impl Default for LyricLine {
    fn default() -> (r: Self)
        ensures
            r.time_ms == 0,
            r.text@ == Seq::<char>::empty(),
    {
        LyricLine { time_ms: 0, text: String::new() }
    }
}

// ---------------------------------------------------------------------------
// Time tags
// ---------------------------------------------------------------------------

pub open spec fn pow10(n: nat) -> nat
    decreases n,
{
    if n == 0 {
        1
    } else {
        10 * pow10((n - 1) as nat)
    }
}

/// The characters of `s` that are ASCII digits, in order.
pub open spec fn digits_only(s: Seq<char>) -> Seq<char>
    decreases s.len(),
{
    if s.len() == 0 {
        Seq::empty()
    } else if text::is_digit(s.last()) {
        digits_only(s.drop_last()).push(s.last())
    } else {
        digits_only(s.drop_last())
    }
}

/// The minutes, the seconds and the fractional part of a time tag
/// `mm:ss.xx` (also `mm:ss:xx`), before the fraction is read.
pub open spec fn time_fields(s: Seq<char>) -> Option<(u64, u64, Option<Seq<char>>)> {
    let parts = text::split(s, ':');
    if parts.len() < 2 {
        None
    } else {
        match text::parse_u64(parts[0]) {
            None => None,
            Some(mins) => {
                let rest = parts[1];
                let secs_and_frac: (Seq<char>, Option<Seq<char>>) = match text::find(rest, '.') {
                    Some(d) => (rest.take(d), Some(rest.skip(d + 1))),
                    None => match text::find(rest, ':') {
                        Some(c) => (rest.take(c), Some(rest.skip(c + 1))),
                        None => if parts.len() > 2 {
                            (parts[1], Some(parts[2]))
                        } else {
                            (rest, None)
                        },
                    },
                };
                match text::parse_u64(secs_and_frac.0) {
                    None => None,
                    Some(secs) => Some((mins, secs, secs_and_frac.1)),
                }
            },
        }
    }
}

/// Milliseconds that the fractional part of a time tag stands for: its
/// digits read as hundredths when there are two, tenths when there is one,
/// thousandths when there are three, and cut to thousandths when there
/// are more. Digits that do not fit in 64 bits count as zero.
pub open spec fn frac_millis(raw: Seq<char>) -> int {
    let d = digits_only(raw);
    if d.len() == 0 {
        0
    } else {
        let v: int = if text::digits_value(d) <= u64::MAX {
            text::digits_value(d) as int
        } else {
            0
        };
        if d.len() == 2 {
            v * 10
        } else if d.len() == 1 {
            v * 100
        } else if d.len() > 3 {
            v / (pow10((d.len() - 3) as nat) as int)
        } else {
            v
        }
    }
}

/// The time that a tag denotes, in milliseconds, when the tag is one.
pub open spec fn time_millis(s: Seq<char>) -> Option<int> {
    match time_fields(s) {
        Some(f) => Some(
            f.0 * 60000 + f.1 * 1000 + match f.2 {
                Some(r) => frac_millis(r),
                None => 0,
            },
        ),
        None => None,
    }
}

/// A tag whose reading stays within 64-bit arithmetic: at most 22 digits
/// in the fraction, and a total that fits in a `u64`.
pub open spec fn time_in_range(s: Seq<char>) -> bool {
    match time_fields(s) {
        Some(f) => (match f.2 {
            Some(r) => digits_only(r).len() <= 22,
            None => true,
        }) && time_millis(s).unwrap() <= u64::MAX,
        None => true,
    }
}

pub open spec fn time_value(s: Seq<char>) -> Option<u64> {
    match time_millis(s) {
        Some(t) => Some(t as u64),
        None => None,
    }
}

// ---------------------------------------------------------------------------
// Lemmas on pieces of a range
// ---------------------------------------------------------------------------

proof fn lemma_split_at(v: Seq<char>, lo: int, hi: int, c: char, p: int)
    requires
        0 <= lo <= p < hi <= v.len(),
        text::find(v.subrange(lo, hi), c) == Some(p - lo),
    ensures
        text::split(v.subrange(lo, hi), c) == seq![v.subrange(lo, p)] + text::split(
            v.subrange(p + 1, hi),
            c,
        ),
{
    let s = v.subrange(lo, hi);
    assert(s.take(p - lo) =~= v.subrange(lo, p));
    assert(s.skip(p - lo + 1) =~= v.subrange(p + 1, hi));
}

proof fn lemma_split_none(s: Seq<char>, c: char)
    requires
        text::find(s, c) == None::<int>,
    ensures
        text::split(s, c) == seq![s],
{
}

proof fn lemma_split_nonempty(s: Seq<char>, c: char)
    ensures
        text::split(s, c).len() >= 1,
{
    text::lemma_find_spec(s, c);
}

proof fn lemma_pow10_pos(n: nat)
    ensures
        pow10(n) >= 1,
    decreases n,
{
    if n > 0 {
        lemma_pow10_pos((n - 1) as nat);
    }
}

proof fn lemma_pow10_mono(i: nat, j: nat)
    requires
        i <= j,
    ensures
        pow10(i) <= pow10(j),
    decreases j,
{
    if i < j {
        lemma_pow10_mono(i, (j - 1) as nat);
        lemma_pow10_pos((j - 1) as nat);
    }
}

proof fn lemma_digits_value_bound(s: Seq<char>)
    requires
        text::all_digits(s),
    ensures
        text::digits_value(s) < pow10(s.len()),
    decreases s.len(),
{
    if s.len() > 0 {
        let t = s.drop_last();
        assert(text::all_digits(t)) by {
            assert forall|i: int| 0 <= i < t.len() implies text::is_digit(#[trigger] t[i]) by {
                assert(t[i] == s[i]);
            }
        }
        lemma_digits_value_bound(t);
        assert(text::is_digit(s[s.len() - 1]));
    }
}

proof fn lemma_time_millis_nonneg(s: Seq<char>)
    ensures
        time_millis(s) matches Some(t) ==> t >= 0,
{
    if let Some(f) = time_fields(s) {
        if let Some(r) = f.2 {
            let d = digits_only(r);
            if d.len() > 3 {
                lemma_pow10_pos((d.len() - 3) as nat);
            }
        }
    }
}

proof fn lemma_digits_only_all_digits(s: Seq<char>)
    ensures
        text::all_digits(digits_only(s)),
        digits_only(s).len() <= s.len(),
    decreases s.len(),
{
    if s.len() > 0 {
        lemma_digits_only_all_digits(s.drop_last());
    }
}

// ---------------------------------------------------------------------------
// Reading time tags
// ---------------------------------------------------------------------------

/// `10^n` for `n <= 19`.
fn pow10_u64(n: usize) -> (p: u64)
    requires
        n <= 19,
    ensures
        p == pow10(n as nat),
{
    proof {
        reveal_with_fuel(pow10, 20);
        lemma_pow10_mono(n as nat, 19);
    }
    let mut p: u64 = 1;
    let mut i: usize = 0;
    while i < n
        invariant
            i <= n <= 19,
            p == pow10(i as nat),
            pow10(n as nat) <= 10000000000000000000,
        decreases n - i,
    {
        proof {
            lemma_pow10_mono((i + 1) as nat, n as nat);
        }
        p = p * 10;
        i += 1;
    }
    p
}

/// Milliseconds of the fractional part `v[lo..hi]` of a time tag.
/// `None` when it holds more than 22 digits.
fn frac_millis_range(v: &Vec<char>, lo: usize, hi: usize) -> (r: Option<u64>)
    requires
        lo <= hi <= v.len(),
    ensures
        match r {
            Some(ms) => digits_only(v@.subrange(lo as int, hi as int)).len() <= 22 && ms
                == frac_millis(v@.subrange(lo as int, hi as int)),
            None => digits_only(v@.subrange(lo as int, hi as int)).len() > 22,
        },
{
    let ghost s = v@.subrange(lo as int, hi as int);
    let mut digs: Vec<char> = Vec::new();
    let mut i = lo;
    while i < hi
        invariant
            lo <= i <= hi <= v.len(),
            s == v@.subrange(lo as int, hi as int),
            digs@ == digits_only(s.take(i - lo)),
        decreases hi - i,
    {
        let c = v[i];
        proof {
            assert(s.take(i - lo + 1).drop_last() =~= s.take(i - lo));
            assert(s.take(i - lo + 1).last() == c);
        }
        if '0' <= c && c <= '9' {
            digs.push(c);
        }
        i += 1;
    }
    assert(s.take(hi - lo) =~= s);
    let ghost d = digs@;
    proof {
        lemma_digits_only_all_digits(s);
    }
    let n = digs.len();
    if n == 0 {
        return Some(0);
    }
    if n > 22 {
        return None;
    }
    proof {
        assert(text::is_digit(d[0]));
        assert(digs@.subrange(0, n as int) =~= d);
    }
    let val: u64 = match parse_u64_range(&digs, 0, n) {
        Some(x) => x,
        None => 0,
    };
    if n == 2 {
        proof {
            lemma_digits_value_bound(d);
            reveal_with_fuel(pow10, 3);
        }
        Some(val * 10)
    } else if n == 1 {
        proof {
            lemma_digits_value_bound(d);
            reveal_with_fuel(pow10, 2);
        }
        Some(val * 100)
    } else if n > 3 {
        let p = pow10_u64(n - 3);
        proof {
            lemma_pow10_pos((n - 3) as nat);
        }
        Some(val / p)
    } else {
        Some(val)
    }
}

/// Reads the time tag `v[lo..hi]`; `Err` when reading it leaves 64-bit
/// arithmetic.
fn time_of_range(v: &Vec<char>, lo: usize, hi: usize) -> (r: Result<Option<u64>, ()>)
    requires
        lo <= hi <= v.len(),
    ensures
        match r {
            Ok(t) => time_in_range(v@.subrange(lo as int, hi as int)) && t == time_value(
                v@.subrange(lo as int, hi as int),
            ),
            Err(_) => !time_in_range(v@.subrange(lo as int, hi as int)),
        },
{
    let ghost s = v@.subrange(lo as int, hi as int);
    let ghost parts = text::split(s, ':');
    let p1 = match find_char(v, lo, hi, ':') {
        None => {
            proof {
                lemma_split_none(s, ':');
            }
            return Ok(None);
        },
        Some(p) => p,
    };
    let r_lo = p1 + 1;
    proof {
        lemma_split_at(v@, lo as int, hi as int, ':', p1 as int);
        lemma_split_nonempty(v@.subrange(r_lo as int, hi as int), ':');
    }
    assert(parts[0] == v@.subrange(lo as int, p1 as int));
    let mins = match parse_u64_range(v, lo, p1) {
        None => return Ok(None),
        Some(m) => m,
    };
    let p2 = find_char(v, r_lo, hi, ':');
    let r_hi: usize = match p2 {
        Some(p) => p,
        None => hi,
    };
    let more = p2.is_some();
    proof {
        match p2 {
            Some(p) => {
                lemma_split_at(v@, r_lo as int, hi as int, ':', p as int);
                lemma_split_nonempty(v@.subrange(p + 1, hi as int), ':');
            },
            None => {
                lemma_split_none(v@.subrange(r_lo as int, hi as int), ':');
            },
        }
    }
    assert(parts[1] == v@.subrange(r_lo as int, r_hi as int));
    assert(more == (parts.len() > 2));
    let ghost rest = parts[1];
    let mut secs_lo = r_lo;
    let mut secs_hi = r_hi;
    let mut frac_lo = r_hi;
    let mut frac_hi = r_hi;
    let mut has_frac = false;
    match find_char(v, r_lo, r_hi, '.') {
        Some(d) => {
            secs_hi = d;
            frac_lo = d + 1;
            has_frac = true;
            assert(rest.take(d - r_lo) =~= v@.subrange(r_lo as int, d as int));
            assert(rest.skip(d - r_lo + 1) =~= v@.subrange(d + 1, r_hi as int));
        },
        None => {
            match find_char(v, r_lo, r_hi, ':') {
                Some(c) => {
                    secs_hi = c;
                    frac_lo = c + 1;
                    has_frac = true;
                    assert(rest.take(c - r_lo) =~= v@.subrange(r_lo as int, c as int));
                    assert(rest.skip(c - r_lo + 1) =~= v@.subrange(c + 1, r_hi as int));
                },
                None => {
                    if more {
                        let p3 = match find_char(v, r_hi + 1, hi, ':') {
                            Some(q) => q,
                            None => hi,
                        };
                        proof {
                            match text::find(v@.subrange(r_hi + 1, hi as int), ':') {
                                Some(q) => {
                                    lemma_split_at(v@, r_hi + 1, hi as int, ':', p3 as int);
                                },
                                None => {
                                    lemma_split_none(v@.subrange(r_hi + 1, hi as int), ':');
                                },
                            }
                        }
                        assert(parts[2] == v@.subrange(r_hi + 1, p3 as int));
                        frac_lo = r_hi + 1;
                        frac_hi = p3;
                        has_frac = true;
                    }
                },
            }
        },
    }
    let secs = match parse_u64_range(v, secs_lo, secs_hi) {
        None => return Ok(None),
        Some(x) => x,
    };
    let ms = if has_frac {
        match frac_millis_range(v, frac_lo, frac_hi) {
            Some(x) => x,
            None => return Err(()),
        }
    } else {
        0
    };
    proof {
        lemma_time_millis_nonneg(s);
    }
    let a = match mins.checked_mul(60000) {
        Some(x) => x,
        None => return Err(()),
    };
    let b = match secs.checked_mul(1000) {
        Some(x) => x,
        None => return Err(()),
    };
    let ab = match a.checked_add(b) {
        Some(x) => x,
        None => return Err(()),
    };
    match ab.checked_add(ms) {
        Some(t) => Ok(Some(t)),
        None => Err(()),
    }
}

/// `parse_time` for any input: `None` exactly when the time does not fit
/// in 64-bit arithmetic, else `Some` of what `parse_time` gives.
pub fn parse_time_checked(time_str: &str) -> (r: Option<Option<u64>>)
    ensures
        r is Some == time_in_range(time_str@),
        r matches Some(t) ==> t == time_value(time_str@),
{
    let v = chars_of(time_str);
    assert(v@.subrange(0, v@.len() as int) =~= v@);
    match time_of_range(&v, 0, v.len()) {
        Ok(t) => Some(t),
        Err(_) => None,
    }
}

/// Reads an LRC time tag such as `01:02.50` (without brackets) as
/// milliseconds. `None` when it is not a time tag.
pub fn parse_time(time_str: &str) -> (r: Option<u64>)
    requires
        time_in_range(time_str@),
    ensures
        r == time_value(time_str@),
{
    let v = chars_of(time_str);
    assert(v@.subrange(0, v@.len() as int) =~= v@);
    match time_of_range(&v, 0, v.len()) {
        Ok(t) => t,
        Err(_) => None,
    }
}

// ---------------------------------------------------------------------------
// Whole lyric files
// ---------------------------------------------------------------------------

/// Records `text` at `ms`: a time seen for the first time takes the text;
/// a time that holds an empty text takes a non-empty one; otherwise the
/// first text stays.
pub open spec fn upsert(m: Map<u64, Seq<char>>, ms: u64, text: Seq<char>) -> Map<u64, Seq<char>> {
    if m.contains_key(ms) {
        if m[ms].len() == 0 && text.len() > 0 {
            m.insert(ms, text)
        } else {
            m
        }
    } else {
        m.insert(ms, text)
    }
}

/// Records `text` at the time that a tag (with its `[` still in front)
/// stands for, if it stands for one.
pub open spec fn apply_tag(m: Map<u64, Seq<char>>, tag: Seq<char>, text: Seq<char>) -> Map<
    u64,
    Seq<char>,
> {
    match time_millis(text::trim_start_char(tag, '[')) {
        Some(t) => if 0 <= t <= u64::MAX {
            upsert(m, t as u64, text)
        } else {
            m
        },
        None => m,
    }
}

/// Records `text` at the times of all `tags`, first to last.
pub open spec fn apply_tags(m: Map<u64, Seq<char>>, tags: Seq<Seq<char>>, text: Seq<char>) -> Map<
    u64,
    Seq<char>,
>
    decreases tags.len(),
{
    if tags.len() == 0 {
        m
    } else {
        apply_tags(apply_tag(m, tags[0], text), tags.skip(1), text)
    }
}

/// One line of an LRC file: `[tag][tag]...text`. Lines that do not start
/// with `[` after trimming, or have no `]`, are ignored; so is a line with
/// an empty text unless `keep_empty` holds.
pub open spec fn apply_line(m: Map<u64, Seq<char>>, raw: Seq<char>, keep_empty: bool) -> Map<
    u64,
    Seq<char>,
> {
    let line = text::trim(raw);
    if line.len() == 0 || line[0] != '[' {
        m
    } else {
        let parts = text::split(line, ']');
        if parts.len() < 2 {
            m
        } else {
            let t = text::trim(parts.last());
            if t.len() == 0 && !keep_empty {
                m
            } else {
                apply_tags(m, parts.drop_last(), t)
            }
        }
    }
}

/// All lines of an LRC text, first to last.
pub open spec fn apply_text(m: Map<u64, Seq<char>>, content: Seq<char>, keep_empty: bool) -> Map<
    u64,
    Seq<char>,
>
    decreases content.len(),
{
    if content.len() == 0 {
        m
    } else {
        let (line, rest) = text::next_line(content);
        if rest.len() < content.len() {
            apply_text(apply_line(m, line, keep_empty), rest, keep_empty)
        } else {
            apply_line(m, line, keep_empty)
        }
    }
}

/// The lyrics that an LRC text and its translation make: the main text
/// first, keeping its empty lines (they clear the display), then the
/// translation, whose empty lines count only when it is the same text.
pub open spec fn lyric_table(lrc: Seq<char>, tlrc: Seq<char>) -> Map<u64, Seq<char>> {
    apply_text(apply_text(Map::empty(), lrc, true), tlrc, tlrc == lrc)
}

/// Every time tag of a line that `apply_line` reads is within range.
pub open spec fn line_in_range(raw: Seq<char>, keep_empty: bool) -> bool {
    let line = text::trim(raw);
    if line.len() == 0 || line[0] != '[' {
        true
    } else {
        let parts = text::split(line, ']');
        if parts.len() < 2 {
            true
        } else {
            let t = text::trim(parts.last());
            if t.len() == 0 && !keep_empty {
                true
            } else {
                forall|i: int|
                    0 <= i < parts.len() - 1 ==> time_in_range(
                        text::trim_start_char(#[trigger] parts[i], '['),
                    )
            }
        }
    }
}

pub open spec fn text_in_range(content: Seq<char>, keep_empty: bool) -> bool
    decreases content.len(),
{
    if content.len() == 0 {
        true
    } else {
        let (line, rest) = text::next_line(content);
        if rest.len() < content.len() {
            line_in_range(line, keep_empty) && text_in_range(rest, keep_empty)
        } else {
            line_in_range(line, keep_empty)
        }
    }
}

/// Every time tag that reading the two texts meets is within range.
pub open spec fn lyrics_in_range(lrc: Seq<char>, tlrc: Seq<char>) -> bool {
    text_in_range(lrc, true) && text_in_range(tlrc, tlrc == lrc)
}

pub open spec fn texts(m: Map<u64, String>) -> Map<u64, Seq<char>> {
    m.map_values(|s: String| s@)
}

/// `lines` sorted by strictly increasing time.
pub open spec fn strictly_sorted(lines: Seq<LyricLine>) -> bool {
    forall|i: int, j: int| 0 <= i < j < lines.len() ==> lines[i].time_ms < lines[j].time_ms
}

/// `lines` lists the entries of `table`, ordered by time.
pub open spec fn lists_table(lines: Seq<LyricLine>, table: Map<u64, Seq<char>>) -> bool {
    &&& strictly_sorted(lines)
    &&& forall|i: int|
        0 <= i < lines.len() ==> table.contains_key(#[trigger] lines[i].time_ms) && table[lines[i].time_ms]
            == lines[i].text@
    &&& forall|k: u64|
        #[trigger] table.contains_key(k) ==> exists|i: int|
            0 <= i < lines.len() && #[trigger] lines[i].time_ms == k
}

fn upsert_text(map: &mut BTreeMap<u64, String>, ms: u64, text: &String)
    ensures
        texts(final(map)@) == upsert(texts(old(map)@), ms, text@),
{
    broadcast use vstd::std_specs::btree::group_btree_axioms, vstd::laws_cmp::group_laws_cmp;

    let ghost before = texts(map@);
    let found = map.get(&ms);
    match found {
        Some(e) => {
            if e.as_str().is_empty() && !text.as_str().is_empty() {
                map.insert(ms, text.clone());
                assert(texts(map@) =~= before.insert(ms, text@));
            }
        },
        None => {
            map.insert(ms, text.clone());
            assert(texts(map@) =~= before.insert(ms, text@));
        },
    }
}

proof fn lemma_split_last(line: Seq<char>, prefix: Seq<Seq<char>>, tail: Seq<char>)
    requires
        text::split(line, ']') == prefix + text::split(tail, ']'),
        text::find(tail, ']') == None::<int>,
    ensures
        text::split(line, ']').len() == prefix.len() + 1,
        text::split(line, ']').last() == tail,
        text::split(line, ']').drop_last() == prefix,
{
    lemma_split_none(tail, ']');
    assert((prefix + seq![tail]).drop_last() =~= prefix);
}

/// Applies one line `v[lo..hi]` to the lyric table; `false`, with the
/// table in no particular state, when one of its time tags is out of range.
fn process_line(map: &mut BTreeMap<u64, String>, v: &Vec<char>, lo: usize, hi: usize, keep: bool) -> (ok: bool)
    requires
        lo <= hi <= v.len(),
    ensures
        ok == line_in_range(v@.subrange(lo as int, hi as int), keep),
        ok ==> texts(final(map)@) == apply_line(
            texts(old(map)@),
            v@.subrange(lo as int, hi as int),
            keep,
        ),
{
    let (a, b) = trim_range(v, lo, hi);
    let ghost line = v@.subrange(a as int, b as int);
    if a == b || v[a] != '[' {
        return true;
    }
    // Pieces separated by `]`: all but the last are tags.
    let mut tags: Vec<(usize, usize)> = Vec::new();
    let ghost mut prefix: Seq<Seq<char>> = Seq::empty();
    let mut pos = a;
    loop
        invariant
            a <= pos <= b <= v.len(),
            line == v@.subrange(a as int, b as int),
            text::split(line, ']') == prefix + text::split(v@.subrange(pos as int, b as int), ']'),
            tags@.len() == prefix.len(),
            forall|i: int|
                0 <= i < tags@.len() ==> a <= (#[trigger] tags@[i]).0 <= tags@[i].1 <= b
                    && prefix[i] == v@.subrange(tags@[i].0 as int, tags@[i].1 as int),
        ensures
            a <= pos <= b,
            text::split(line, ']') == prefix + text::split(v@.subrange(pos as int, b as int), ']'),
            text::find(v@.subrange(pos as int, b as int), ']') == None::<int>,
            tags@.len() == prefix.len(),
            forall|i: int|
                0 <= i < tags@.len() ==> a <= (#[trigger] tags@[i]).0 <= tags@[i].1 <= b
                    && prefix[i] == v@.subrange(tags@[i].0 as int, tags@[i].1 as int),
        decreases b - pos,
    {
        match find_char(v, pos, b, ']') {
            Some(q) => {
                proof {
                    lemma_split_at(v@, pos as int, b as int, ']', q as int);
                    prefix = prefix.push(v@.subrange(pos as int, q as int));
                    assert(prefix + text::split(v@.subrange(q + 1, b as int), ']') =~= prefix.drop_last()
                        + (seq![v@.subrange(pos as int, q as int)] + text::split(
                        v@.subrange(q + 1, b as int),
                        ']',
                    )));
                }
                tags.push((pos, q));
                pos = q + 1;
            },
            None => {
                break ;
            },
        }
    }
    proof {
        lemma_split_last(line, prefix, v@.subrange(pos as int, b as int));
    }
    if tags.len() == 0 {
        return true;
    }
    let (ta, tb) = trim_range(v, pos, b);
    if ta == tb && !keep {
        return true;
    }
    let text = string_of_range(v, ta, tb);
    let ghost t = text@;
    let ghost m0 = texts(map@);
    let mut i: usize = 0;
    assert(prefix.skip(0) =~= prefix);
    while i < tags.len()
        invariant
            i <= tags@.len() == prefix.len(),
            line == v@.subrange(a as int, b as int),
            lo <= hi <= v.len(),
            line == text::trim(v@.subrange(lo as int, hi as int)),
            line.len() > 0 && line[0] == '[',
            text::split(line, ']').len() >= 2,
            text::split(line, ']').drop_last() == prefix,
            t == text::trim(text::split(line, ']').last()),
            !(t.len() == 0 && !keep),
            b <= v.len(),
            text@ == t,
            forall|j: int|
                0 <= j < tags@.len() ==> a <= (#[trigger] tags@[j]).0 <= tags@[j].1 <= b
                    && prefix[j] == v@.subrange(tags@[j].0 as int, tags@[j].1 as int),
            forall|j: int|
                0 <= j < i ==> time_in_range(text::trim_start_char(#[trigger] prefix[j], '[')),
            apply_tags(texts(map@), prefix.skip(i as int), t) == apply_tags(m0, prefix, t),
        decreases tags@.len() - i,
    {
        let (pa, pb) = tags[i];
        proof {
            assert(prefix.skip(i as int)[0] == prefix[i as int]);
            assert(prefix.skip(i as int).skip(1) =~= prefix.skip(i + 1));
        }
        let ts = skip_leading_char(v, pa, pb, '[');
        let ghost tag = text::trim_start_char(prefix[i as int], '[');
        assert(v@.subrange(ts as int, pb as int) == tag);
        let ghost before = texts(map@);
        match time_of_range(v, ts, pb) {
            Err(_) => {
                return false;
            },
            Ok(Some(ms)) => {
                upsert_text(map, ms, &text);
                proof {
                    lemma_time_millis_nonneg(tag);
                }
                assert(time_millis(tag) == Some(ms as int));
                assert(texts(map@) == apply_tag(before, prefix[i as int], t));
            },
            Ok(None) => {
                assert(texts(map@) == apply_tag(before, prefix[i as int], t));
            },
        }
        i += 1;
    }
    assert(prefix.skip(prefix.len() as int) =~= Seq::<Seq<char>>::empty());
    true
}

/// Applies all lines of `v` to the lyric table; `false`, with the table in
/// no particular state, when a time tag is out of range.
fn process_text(map: &mut BTreeMap<u64, String>, v: &Vec<char>, keep: bool) -> (ok: bool)
    ensures
        ok == text_in_range(v@, keep),
        ok ==> texts(final(map)@) == apply_text(texts(old(map)@), v@, keep),
{
    let n = v.len();
    let ghost m0 = texts(map@);
    let mut pos: usize = 0;
    assert(v@.subrange(0, n as int) =~= v@);
    while pos < n
        invariant
            pos <= n == v.len(),
            apply_text(texts(map@), v@.subrange(pos as int, n as int), keep) == apply_text(
                m0,
                v@,
                keep,
            ),
            text_in_range(v@.subrange(pos as int, n as int), keep) == text_in_range(v@, keep),
        decreases n - pos,
    {
        let ghost c = v@.subrange(pos as int, n as int);
        match find_char(v, pos, n, '\n') {
            Some(e) => {
                let le = if e > pos && v[e - 1] == '\r' {
                    e - 1
                } else {
                    e
                };
                proof {
                    assert(c.take(e - pos) =~= v@.subrange(pos as int, e as int));
                    assert(c.skip(e - pos + 1) =~= v@.subrange(e + 1, n as int));
                    if e > pos && v@[e - 1] == '\r' {
                        assert(v@.subrange(pos as int, e as int).drop_last() =~= v@.subrange(
                            pos as int,
                            le as int,
                        ));
                    }
                    assert(text::next_line(c) == (
                        v@.subrange(pos as int, le as int),
                        v@.subrange(e + 1, n as int),
                    ));
                }
                if !process_line(map, v, pos, le, keep) {
                    return false;
                }
                pos = e + 1;
            },
            None => {
                assert(text::next_line(c) == (c, Seq::<char>::empty()));
                if !process_line(map, v, pos, n, keep) {
                    return false;
                }
                pos = n;
                assert(v@.subrange(n as int, n as int) =~= Seq::<char>::empty());
            },
        }
    }
    true
}

/// The entries of the table in increasing order of time.
fn table_lines(map: &BTreeMap<u64, String>) -> (r: Vec<LyricLine>)
    ensures
        lists_table(r@, texts(map@)),
{
    broadcast use vstd::std_specs::btree::group_btree_axioms, vstd::laws_cmp::group_laws_cmp;

    let mut r: Vec<LyricLine> = Vec::new();
    let iter = map.iter();
    proof {
        let ks = vstd::std_specs::iter::IteratorSpec::remaining(&iter).map_values(|kv: (&u64, &String)| *kv.0);
        assert forall|i: int, j: int|
            0 <= i < j < vstd::std_specs::iter::IteratorSpec::remaining(&iter).len() implies *(#[trigger] vstd::std_specs::iter::IteratorSpec::remaining(&iter)[i]).0 < *(
            #[trigger] vstd::std_specs::iter::IteratorSpec::remaining(&iter)[j]).0 by {
            assert(ks[i] == *vstd::std_specs::iter::IteratorSpec::remaining(&iter)[i].0);
            assert(ks[j] == *vstd::std_specs::iter::IteratorSpec::remaining(&iter)[j].0);
            assert(vstd::std_specs::cmp::OrdSpec::cmp_spec(&ks[i], &ks[j]) == core::cmp::Ordering::Less);
        }
    }
    for kv in it: iter
        invariant
            it.seq() == vstd::std_specs::iter::IteratorSpec::remaining(&iter),
            forall|i: int|
                0 <= i < it.seq().len() ==> map@.contains_key(*(#[trigger] it.seq()[i]).0)
                    && map@[*it.seq()[i].0] == *it.seq()[i].1,
            forall|k: u64| #[trigger]
                map@.contains_key(k) ==> it.seq().contains((&k, &map@[k])),
            forall|i: int, j: int|
                0 <= i < j < it.seq().len() ==> *(#[trigger] it.seq()[i]).0 < *(
                #[trigger] it.seq()[j]).0,
            r@.len() == it.index(),
            forall|i: int|
                0 <= i < it.index() ==> (#[trigger] r@[i]).time_ms == *it.seq()[i].0
                    && r@[i].text@ == it.seq()[i].1@,
    {
        let (k, s) = kv;
        r.push(LyricLine { time_ms: *k, text: s.clone() });
    }
    proof {
        let sq = vstd::std_specs::iter::IteratorSpec::remaining(&iter);
        assert(r@.len() == sq.len());
        assert forall|k: u64| #[trigger] texts(map@).contains_key(k) implies exists|i: int|
            0 <= i < r@.len() && #[trigger] r@[i].time_ms == k by {
            assert(sq.contains((&k, &map@[k])));
            let i = choose|i: int| 0 <= i < sq.len() && sq[i] == (&k, &map@[k]);
            assert(r@[i].time_ms == k);
        }
    }
    r
}

/// Reads the two texts; `None` when a time tag is out of range.
fn read_lyrics(lrc: &str, tlrc: &str) -> (r: Option<Vec<LyricLine>>)
    ensures
        r is Some == lyrics_in_range(lrc@, tlrc@),
        r matches Some(lines) ==> lists_table(lines@, lyric_table(lrc@, tlrc@)),
{
    let lv = chars_of(lrc);
    let tv = chars_of(tlrc);
    let mut map: BTreeMap<u64, String> = BTreeMap::new();
    assert(texts(map@) =~= Map::<u64, Seq<char>>::empty());
    if !process_text(&mut map, &lv, true) {
        return None;
    }
    let keep = same_chars(&tv, &lv);
    if !process_text(&mut map, &tv, keep) {
        return None;
    }
    Some(table_lines(&map))
}

/// Reads an LRC text and its translation into lyric lines ordered by time.
/// Each time holds the first non-empty text given for it; empty lines of
/// the main text are kept (they clear the display).
pub fn parse_lyrics(lrc: &str, tlrc: &str) -> (r: Vec<LyricLine>)
    requires
        lyrics_in_range(lrc@, tlrc@),
    ensures
        lists_table(r@, lyric_table(lrc@, tlrc@)),
{
    match read_lyrics(lrc, tlrc) {
        Some(lines) => lines,
        None => Vec::new(),
    }
}

/// `parse_lyrics` for any input: `None` exactly when a time tag does not fit
/// in 64-bit arithmetic.
pub fn parse_lyrics_checked(lrc: &str, tlrc: &str) -> (r: Option<Vec<LyricLine>>)
    ensures
        r is Some == lyrics_in_range(lrc@, tlrc@),
        r matches Some(lines) ==> lists_table(lines@, lyric_table(lrc@, tlrc@)),
{
    read_lyrics(lrc, tlrc)
}

// ---------------------------------------------------------------------------
// Laws of lyric files
// ---------------------------------------------------------------------------

proof fn lemma_upsert_keeps(m: Map<u64, Seq<char>>, ms: u64, text: Seq<char>, t: u64)
    requires
        m.contains_key(t),
    ensures
        upsert(m, ms, text).contains_key(t),
        m[t].len() > 0 ==> upsert(m, ms, text)[t] == m[t],
{
}

proof fn lemma_tags_keep(m: Map<u64, Seq<char>>, tags: Seq<Seq<char>>, text: Seq<char>, t: u64)
    requires
        m.contains_key(t),
    ensures
        apply_tags(m, tags, text).contains_key(t),
        m[t].len() > 0 ==> apply_tags(m, tags, text)[t] == m[t],
    decreases tags.len(),
{
    if tags.len() > 0 {
        let m1 = apply_tag(m, tags[0], text);
        if let Some(x) = time_millis(text::trim_start_char(tags[0], '[')) {
            if 0 <= x <= u64::MAX {
                lemma_upsert_keeps(m, x as u64, text, t);
            }
        }
        lemma_tags_keep(m1, tags.skip(1), text, t);
    }
}

proof fn lemma_text_keeps(m: Map<u64, Seq<char>>, content: Seq<char>, keep: bool, t: u64)
    requires
        m.contains_key(t),
    ensures
        apply_text(m, content, keep).contains_key(t),
        m[t].len() > 0 ==> apply_text(m, content, keep)[t] == m[t],
    decreases content.len(),
{
    if content.len() > 0 {
        let (line, rest) = text::next_line(content);
        let l = text::trim(line);
        let m1 = apply_line(m, line, keep);
        if l.len() > 0 && l[0] == '[' {
            let parts = text::split(l, ']');
            if parts.len() >= 2 {
                lemma_tags_keep(m, parts.drop_last(), text::trim(parts.last()), t);
            }
        }
        if rest.len() < content.len() {
            lemma_text_keeps(m1, rest, keep, t);
        }
    }
}

/// Law: a time that holds a non-empty text keeps it, whatever lines are
/// read after it (the first non-empty text for a time wins); a time once
/// read stays in the table.
pub proof fn lemma_first_text_stays(m: Map<u64, Seq<char>>, content: Seq<char>, keep_empty: bool, t: u64)
    requires
        m.contains_key(t),
    ensures
        apply_text(m, content, keep_empty).contains_key(t),
        m[t].len() > 0 ==> apply_text(m, content, keep_empty)[t] == m[t],
{
    lemma_text_keeps(m, content, keep_empty, t);
}

proof fn lemma_tags_mark(m: Map<u64, Seq<char>>, tags: Seq<Seq<char>>, text: Seq<char>, i: int, t: int)
    requires
        0 <= i < tags.len(),
        time_millis(text::trim_start_char(tags[i], '[')) == Some(t),
        0 <= t <= u64::MAX,
    ensures
        apply_tags(m, tags, text).contains_key(t as u64),
    decreases tags.len(),
{
    let m1 = apply_tag(m, tags[0], text);
    if i == 0 {
        assert(m1.contains_key(t as u64));
        lemma_tags_keep(m1, tags.skip(1), text, t as u64);
    } else {
        assert(tags.skip(1)[i - 1] == tags[i]);
        lemma_tags_mark(m1, tags.skip(1), text, i - 1, t);
    }
}

/// Law: every time tag of a line that is read puts its time in the table,
/// also when the line's text is empty (an empty line of the main lyrics
/// clears the display at its time).
pub proof fn lemma_line_marks_its_times(m: Map<u64, Seq<char>>, raw: Seq<char>, keep_empty: bool, i: int, t: int)
    requires
        text::trim(raw).len() > 0,
        text::trim(raw)[0] == '[',
        keep_empty || text::trim(text::split(text::trim(raw), ']').last()).len() > 0,
        0 <= i < text::split(text::trim(raw), ']').len() - 1,
        time_millis(text::trim_start_char(text::split(text::trim(raw), ']')[i], '[')) == Some(t),
        0 <= t <= u64::MAX,
    ensures
        apply_line(m, raw, keep_empty).contains_key(t as u64),
{
    let parts = text::split(text::trim(raw), ']');
    assert(parts.drop_last()[i] == parts[i]);
    lemma_tags_mark(m, parts.drop_last(), text::trim(parts.last()), i, t);
}

// ---------------------------------------------------------------------------
// Requests to the lyric service
// ---------------------------------------------------------------------------

/// Bytes that stand for themselves in a query: ASCII letters and digits
/// and `-`, `_`, `.`, `~`.
pub open spec fn unreserved(b: u8) -> bool {
    ||| 48 <= b <= 57
    ||| 97 <= b <= 122
    ||| 65 <= b <= 90
    ||| b == 45
    ||| b == 95
    ||| b == 46
    ||| b == 126
}

/// Upper-case hexadecimal digit.
pub open spec fn hex_digit(n: nat) -> char {
    if n < 10 {
        ((48 + n) as u32) as char
    } else {
        ((55 + n) as u32) as char
    }
}

/// A byte in a query: itself when unreserved, `+` for a space, else `%XX`.
pub open spec fn encode_byte(b: u8) -> Seq<char> {
    if unreserved(b) {
        seq![(b as u32) as char]
    } else if b == 32 {
        seq!['+']
    } else {
        seq!['%', hex_digit((b / 16) as nat), hex_digit((b % 16) as nat)]
    }
}

pub open spec fn url_encode_bytes(bs: Seq<u8>) -> Seq<char>
    decreases bs.len(),
{
    if bs.len() == 0 {
        Seq::empty()
    } else {
        url_encode_bytes(bs.drop_last()) + encode_byte(bs.last())
    }
}

fn hex_char(n: u8) -> (c: char)
    requires
        n < 16,
    ensures
        c == hex_digit(n as nat),
{
    if n < 10 {
        (48u8 + n) as char
    } else {
        (55u8 + n) as char
    }
}

/// Encodes the UTF-8 bytes of `input` for a query string.
pub fn url_encode(input: &str) -> (r: String)
    ensures
        r@ == url_encode_bytes(vstd::utf8::encode_utf8(input@)),
{
    let bytes = input.as_bytes();
    let mut out: Vec<char> = Vec::new();
    let mut i: usize = 0;
    while i < bytes.len()
        invariant
            i <= bytes@.len(),
            out@ == url_encode_bytes(bytes@.take(i as int)),
        decreases bytes@.len() - i,
    {
        let b = bytes[i];
        proof {
            assert(bytes@.take(i + 1).drop_last() =~= bytes@.take(i as int));
            assert(bytes@.take(i + 1).last() == b);
        }
        if (48 <= b && b <= 57) || (97 <= b && b <= 122) || (65 <= b && b <= 90) || b == 45 || b
            == 95 || b == 46 || b == 126 {
            out.push(b as char);
        } else if b == 32 {
            out.push('+');
        } else {
            out.push('%');
            out.push(hex_char(b / 16));
            out.push(hex_char(b % 16));
        }
        assert(out@ =~= url_encode_bytes(bytes@.take(i + 1)));
        i += 1;
    }
    assert(bytes@.take(bytes@.len() as int) =~= bytes@);
    string_from_chars(&out)
}

/// Characters that a query string carries as they are.
pub open spec fn url_safe(c: char) -> bool {
    let u = c as u32;
    ||| 48 <= u <= 57
    ||| 97 <= u <= 122
    ||| 65 <= u <= 90
    ||| u == 45 || u == 95 || u == 46 || u == 126
    ||| u == 43 || u == 37
}

/// Law: an encoded query holds nothing but letters, digits, `-`, `_`,
/// `.`, `~`, `+` and `%`.
pub proof fn lemma_url_encode_safe(bs: Seq<u8>)
    ensures
        forall|i: int|
            0 <= i < url_encode_bytes(bs).len() ==> url_safe(#[trigger] url_encode_bytes(bs)[i]),
    decreases bs.len(),
{
    if bs.len() > 0 {
        lemma_url_encode_safe(bs.drop_last());
        let prev = url_encode_bytes(bs.drop_last());
        let e = encode_byte(bs.last());
        let b = bs.last();
        assert forall|i: int| 0 <= i < e.len() implies url_safe(#[trigger] e[i]) by {
            if unreserved(b) {
                assert(e[i] == (b as u32) as char);
            } else if b != 32 {
                if i == 1 {
                    assert(b / 16 < 16);
                } else if i == 2 {
                    assert(b % 16 < 16);
                }
            }
        }
        assert forall|i: int|
            0 <= i < url_encode_bytes(bs).len() implies url_safe(
            #[trigger] url_encode_bytes(bs)[i],
        ) by {
            if i < prev.len() {
                assert(url_encode_bytes(bs)[i] == prev[i]);
            } else {
                assert(url_encode_bytes(bs)[i] == e[i - prev.len()]);
            }
        }
    }
}

/// Value of a hexadecimal digit, either case; 0 for other characters.
pub open spec fn hex_value(c: char) -> nat {
    let u = c as u32;
    if 48 <= u <= 57 {
        (u - 48) as nat
    } else if 65 <= u <= 70 {
        (u - 55) as nat
    } else if 97 <= u <= 102 {
        (u - 87) as nat
    } else {
        0
    }
}

/// Decoding of a query string: `+` is a space, `%XY` the byte `0xXY`, and
/// any other character the byte of its code.
pub open spec fn form_decode(t: Seq<char>) -> Seq<u8>
    decreases t.len(),
{
    if t.len() == 0 {
        Seq::empty()
    } else if t[0] == '+' {
        seq![32u8] + form_decode(t.skip(1))
    } else if t[0] == '%' && t.len() >= 3 {
        seq![(hex_value(t[1]) * 16 + hex_value(t[2])) as u8] + form_decode(t.skip(3))
    } else {
        seq![(t[0] as u32) as u8] + form_decode(t.skip(1))
    }
}

proof fn lemma_hex_round_trip(n: nat)
    requires
        n < 16,
    ensures
        hex_value(hex_digit(n)) == n,
{
}

proof fn lemma_decode_encoded_byte(b: u8, t: Seq<char>)
    ensures
        form_decode(encode_byte(b) + t) == seq![b] + form_decode(t),
{
    let e = encode_byte(b);
    let et = e + t;
    if unreserved(b) {
        assert(et[0] == (b as u32) as char);
        assert(et.skip(1) =~= t);
    } else if b == 32 {
        assert(et[0] == '+');
        assert(et.skip(1) =~= t);
    } else {
        lemma_hex_round_trip((b / 16) as nat);
        lemma_hex_round_trip((b % 16) as nat);
        assert(et[0] == '%');
        assert(et[1] == hex_digit((b / 16) as nat));
        assert(et[2] == hex_digit((b % 16) as nat));
        assert(et.skip(3) =~= t);
        assert((b / 16) * 16 + b % 16 == b);
    }
    assert(seq![b] + form_decode(t) =~= form_decode(et));
}

proof fn lemma_decode_encoded(bs: Seq<u8>, t: Seq<char>)
    ensures
        form_decode(url_encode_bytes(bs) + t) == bs + form_decode(t),
    decreases bs.len(),
{
    if bs.len() == 0 {
        assert(url_encode_bytes(bs) + t =~= t);
        assert(bs + form_decode(t) =~= form_decode(t));
    } else {
        let rest = encode_byte(bs.last()) + t;
        assert(url_encode_bytes(bs) + t =~= url_encode_bytes(bs.drop_last()) + rest);
        lemma_decode_encoded(bs.drop_last(), rest);
        lemma_decode_encoded_byte(bs.last(), t);
        assert(bs.drop_last() + (seq![bs.last()] + form_decode(t)) =~= bs + form_decode(t));
    }
}

/// Law: decoding an encoded query gives back its bytes.
pub proof fn lemma_url_encode_round_trip(bs: Seq<u8>)
    ensures
        form_decode(url_encode_bytes(bs)) == bs,
{
    lemma_decode_encoded(bs, Seq::empty());
    assert(url_encode_bytes(bs) + Seq::<char>::empty() =~= url_encode_bytes(bs));
    assert(bs + form_decode(Seq::<char>::empty()) =~= bs);
}

/// Law: different texts are encoded differently.
pub proof fn lemma_url_encode_injective(a: Seq<char>, b: Seq<char>)
    requires
        url_encode_bytes(vstd::utf8::encode_utf8(a)) == url_encode_bytes(vstd::utf8::encode_utf8(b)),
    ensures
        a == b,
{
    lemma_url_encode_round_trip(vstd::utf8::encode_utf8(a));
    lemma_url_encode_round_trip(vstd::utf8::encode_utf8(b));
    vstd::utf8::encode_utf8_decode_utf8(a);
    vstd::utf8::encode_utf8_decode_utf8(b);
}

pub open spec fn search_prefix() -> Seq<char> {
    "http://music.163.com/api/search/get/web?s="@
}

pub open spec fn search_suffix() -> Seq<char> {
    "&type=1&offset=0&total=true&limit=1"@
}

/// Address of the search for a song, or `None` when there is no title
/// to search for.
pub fn search_url(title: &str, artist: &str) -> (r: Option<String>)
    ensures
        match r {
            Some(u) => title@.len() > 0 && u@ == search_prefix() + url_encode_bytes(
                vstd::utf8::encode_utf8(title@ + seq![' '] + artist@),
            ) + search_suffix(),
            None => title@.len() == 0,
        },
{
    if title.is_empty() {
        return None;
    }
    let mut query = String::from_str(title);
    query.append(" ");
    query.append(artist);
    proof {
        reveal_strlit(" ");
    }
    assert(query@ =~= title@ + seq![' '] + artist@);
    let encoded = url_encode(query.as_str());
    let mut url = String::from_str("http://music.163.com/api/search/get/web?s=");
    url.append(encoded.as_str());
    url.append("&type=1&offset=0&total=true&limit=1");
    Some(url)
}

pub open spec fn lyric_prefix() -> Seq<char> {
    "http://music.163.com/api/song/lyric?id="@
}

pub open spec fn lyric_suffix() -> Seq<char> {
    "&lv=1&kv=1&tv=-1"@
}

/// Address of the lyrics of the song with this id.
pub fn lyric_url(song_id: i64) -> (r: String)
    ensures
        r@ == lyric_prefix() + text::signed_decimal(song_id as int) + lyric_suffix(),
{
    let mut digits: Vec<char> = Vec::new();
    if song_id < 0 {
        digits.push('-');
        let m: u64 = (-(song_id + 1)) as u64 + 1;
        push_decimal(&mut digits, m);
    } else {
        push_decimal(&mut digits, song_id as u64);
    }
    assert(digits@ =~= text::signed_decimal(song_id as int));
    let id = string_from_chars(&digits);
    let mut url = String::from_str("http://music.163.com/api/song/lyric?id=");
    url.append(id.as_str());
    url.append("&lv=1&kv=1&tv=-1");
    url
}

/// The song id in a search response: `result.songs[0].id`.
pub open spec fn search_song_id(resp: Json) -> Option<i64> {
    match json::get(resp, "result"@) {
        Some(result) => match json::get(result, "songs"@) {
            Some(songs) => match json::first_element(songs) {
                Some(song) => match json::get(song, "id"@) {
                    Some(id) => json::as_i64(id),
                    None => None,
                },
                None => None,
            },
            None => None,
        },
        None => None,
    }
}

/// Reads the id of the first song in a search response.
pub fn song_id_from_search(resp: &Json) -> (r: Option<i64>)
    ensures
        r == search_song_id(*resp),
{
    let result = resp.get("result")?;
    let songs = result.get("songs")?;
    let song = songs.first_element()?;
    let id = song.get("id")?;
    id.as_i64()
}

/// `section.lyric` of a lyric response: its text, or empty when it is not
/// a string; `None` when it is missing.
pub open spec fn lyric_field(resp: Json, section: Seq<char>) -> Option<Seq<char>> {
    match json::get(resp, section) {
        Some(s) => match json::get(s, "lyric"@) {
            Some(l) => Some(
                match json::as_text(l) {
                    Some(t) => t,
                    None => Seq::empty(),
                },
            ),
            None => None,
        },
        None => None,
    }
}

/// The main lyrics and their translation in a lyric response.
pub open spec fn lyric_sources(resp: Json) -> Option<(Seq<char>, Seq<char>)> {
    match lyric_field(resp, "lrc"@) {
        Some(a) => match lyric_field(resp, "tlyric"@) {
            Some(b) => Some((a, b)),
            None => None,
        },
        None => None,
    }
}

/// Law: the main lyrics are the text under `lrc.lyric` and the
/// translation the text under `tlyric.lyric`.
pub proof fn lemma_lyric_sources_are_lrc_then_tlyric(
    resp: Json,
    lrc: Json,
    tlrc: Json,
    main: String,
    translation: String,
)
    requires
        json::get(resp, "lrc"@) == Some(lrc),
        json::get(lrc, "lyric"@) == Some(Json::Text(main)),
        json::get(resp, "tlyric"@) == Some(tlrc),
        json::get(tlrc, "lyric"@) == Some(Json::Text(translation)),
    ensures
        lyric_sources(resp) == Some((main@, translation@)),
{
}

/// Law: a non-empty text that the main lyrics give a time keeps that time
/// in the table, whatever the translation holds.
pub proof fn lemma_main_text_wins(lrc: Seq<char>, tlrc: Seq<char>, t: u64)
    requires
        apply_text(Map::empty(), lrc, true).contains_key(t),
        apply_text(Map::empty(), lrc, true)[t].len() > 0,
    ensures
        lyric_table(lrc, tlrc).contains_key(t),
        lyric_table(lrc, tlrc)[t] == apply_text(Map::empty(), lrc, true)[t],
{
    lemma_first_text_stays(apply_text(Map::empty(), lrc, true), tlrc, tlrc == lrc, t);
}

fn lyric_field_of(resp: &Json, section: &str) -> (r: Option<String>)
    ensures
        match r {
            Some(t) => lyric_field(*resp, section@) == Some(t@),
            None => lyric_field(*resp, section@) == None::<Seq<char>>,
        },
{
    let s = resp.get(section)?;
    let l = s.get("lyric")?;
    match l.as_text() {
        Some(t) => Some(t.clone()),
        None => Some(String::new()),
    }
}

/// Reads the lyrics out of a lyric response. `None` when the response
/// lacks `lrc.lyric` or `tlyric.lyric`, or a time tag in them does not fit
/// in 64-bit arithmetic.
pub fn lyrics_from_response(resp: &Json) -> (r: Option<Vec<LyricLine>>)
    ensures
        match lyric_sources(*resp) {
            Some(src) => (r is Some == lyrics_in_range(src.0, src.1)) && (r matches Some(lines)
                ==> lists_table(lines@, lyric_table(src.0, src.1))),
            None => r is None,
        },
{
    let lrc = lyric_field_of(resp, "lrc")?;
    let tlrc = lyric_field_of(resp, "tlyric")?;
    parse_lyrics_checked(lrc.as_str(), tlrc.as_str())
}

} // verus!
