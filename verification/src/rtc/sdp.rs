//! Which negotiated video payload types accept a given RTCP feedback, read from the
//! remote session description. Only an accepted video m-line opts in: audio and
//! rejected m-lines (port 0) never do.
use vstd::prelude::*;
use crate::text::{chars_of, same};

verus! {

/// Unicode `White_Space`, the property `char::is_whitespace` tests.
pub open spec fn is_space(c: char) -> bool {
    let n = c as u32;
    ||| 0x09 <= n <= 0x0d
    ||| n == 0x20
    ||| n == 0x85
    ||| n == 0xa0
    ||| n == 0x1680
    ||| 0x2000 <= n <= 0x200a
    ||| n == 0x2028
    ||| n == 0x2029
    ||| n == 0x202f
    ||| n == 0x205f
    ||| n == 0x3000
}

/// The pieces of `s` between newlines, the last one possibly empty.
pub open spec fn lines(s: Seq<char>) -> Seq<Seq<char>>
    decreases s.len(),
{
    if s.len() == 0 {
        seq![Seq::empty()]
    } else {
        let before = lines(s.drop_last());
        if s.last() == '\n' {
            before.push(Seq::empty())
        } else {
            before.update(before.len() - 1, before.last().push(s.last()))
        }
    }
}

/// Reading `line` left to right: the words finished so far and the word being read.
pub open spec fn word_scan(line: Seq<char>) -> (Seq<Seq<char>>, Seq<char>)
    decreases line.len(),
{
    if line.len() == 0 {
        (Seq::empty(), Seq::empty())
    } else {
        let (done, word) = word_scan(line.drop_last());
        if is_space(line.last()) {
            (if word.len() > 0 { done.push(word) } else { done }, Seq::empty())
        } else {
            (done, word.push(line.last()))
        }
    }
}

/// The maximal runs of non-whitespace characters of `line`, as `split_whitespace` yields them.
pub open spec fn words(line: Seq<char>) -> Seq<Seq<char>> {
    let (done, word) = word_scan(line);
    if word.len() > 0 { done.push(word) } else { done }
}

pub open spec fn is_digit(c: char) -> bool {
    '0' as u32 <= c as u32 <= '9' as u32
}

/// The value of a string of decimal digits.
pub open spec fn digits_value(d: Seq<char>) -> nat
    decreases d.len(),
{
    if d.len() == 0 {
        0
    } else {
        digits_value(d.drop_last()) * 10 + (d.last() as u32 - '0' as u32) as nat
    }
}

/// `w` without one leading `+`.
pub open spec fn unsigned_digits(w: Seq<char>) -> Seq<char> {
    if w.len() > 0 && w[0] == '+' { w.skip(1) } else { w }
}

pub open spec fn all_digits(d: Seq<char>) -> bool {
    forall|i: int| 0 <= i < d.len() ==> #[trigger] is_digit(d[i])
}

/// `str::parse` into an unsigned integer type whose largest value is `max`: an optional
/// `+`, then one or more ASCII digits whose value is at most `max`.
pub open spec fn parse_uint(w: Seq<char>, max: nat) -> Option<nat> {
    let d = unsigned_digits(w);
    if d.len() > 0 && all_digits(d) && digits_value(d) <= max {
        Some(digits_value(d))
    } else {
        None
    }
}

/// The characters of `w` before its first `/` (all of `w` when it has none).
pub open spec fn until_slash(w: Seq<char>) -> Seq<char>
    decreases w.len(),
{
    if w.len() == 0 || w[0] == '/' {
        Seq::empty()
    } else {
        seq![w[0]] + until_slash(w.skip(1))
    }
}

pub open spec fn starts_with(w: Seq<char>, prefix: Seq<char>) -> bool {
    prefix.len() <= w.len() && w.take(prefix.len() as int) == prefix
}

/// What reading a session description line by line has established so far.
pub ghost struct FeedbackScan {
    /// The current m-line is an accepted (non-zero port) video section.
    pub video: bool,
    /// The payload types the current video m-line offers, in order.
    pub accepted: Seq<u8>,
    /// The payload types found to accept the feedback, with repeats.
    pub found: Seq<u8>,
}

/// The words of `ws` that parse as payload types (`u8`), in order.
pub open spec fn payload_types(ws: Seq<Seq<char>>) -> Seq<u8>
    decreases ws.len(),
{
    if ws.len() == 0 {
        Seq::empty()
    } else {
        let before = payload_types(ws.drop_last());
        match parse_uint(ws.last(), 255) {
            Some(pt) => before.push(pt as u8),
            None => before,
        }
    }
}

/// An m-line of video whose port (before any `/count`) is a non-zero `u16`.
pub open spec fn video_section(ws: Seq<Seq<char>>) -> bool {
    &&& ws.len() > 1
    &&& ws[0] == "m=video"@
    &&& match parse_uint(until_slash(ws[1]), 65535) {
        Some(port) => port != 0,
        None => false,
    }
}

/// The words after `a=rtcp-fb:` on an attribute line whose words are `ws`.
pub open spec fn feedback_fields(ws: Seq<Seq<char>>) -> Seq<Seq<char>> {
    let rest = ws[0].skip("a=rtcp-fb:"@.len() as int);
    (if rest.len() > 0 { seq![rest] } else { Seq::empty() }) + ws.skip(1)
}

/// Reading one line whose words are `ws`. An m-line starts a section; inside an
/// accepted video section, `a=rtcp-fb:<pt> <feedback>` adds `pt` when the section
/// offers it, and `a=rtcp-fb:* <feedback>` adds every payload type it offers.
pub open spec fn read_line(scan: FeedbackScan, ws: Seq<Seq<char>>, feedback: Seq<char>) -> FeedbackScan {
    if ws.len() > 0 && starts_with(ws[0], "m="@) {
        let video = video_section(ws);
        FeedbackScan {
            video,
            accepted: if video && ws.len() > 3 { payload_types(ws.skip(3)) } else { Seq::empty() },
            found: scan.found,
        }
    } else if scan.video && ws.len() > 0 && starts_with(ws[0], "a=rtcp-fb:"@) {
        let fields = feedback_fields(ws);
        if fields.len() == 2 && fields[1] == feedback {
            if fields[0] == "*"@ {
                FeedbackScan { found: scan.found + scan.accepted, ..scan }
            } else {
                match parse_uint(fields[0], 255) {
                    Some(pt) => if scan.accepted.contains(pt as u8) {
                        FeedbackScan { found: scan.found.push(pt as u8), ..scan }
                    } else {
                        scan
                    },
                    None => scan,
                }
            }
        } else {
            scan
        }
    } else {
        scan
    }
}

/// Reading the lines `ls` in order.
pub open spec fn read_lines(ls: Seq<Seq<char>>, feedback: Seq<char>) -> FeedbackScan
    decreases ls.len(),
{
    if ls.len() == 0 {
        FeedbackScan { video: false, accepted: Seq::empty(), found: Seq::empty() }
    } else {
        read_line(read_lines(ls.drop_last(), feedback), words(ls.last()), feedback)
    }
}

/// The payload types of accepted video sections of `sdp` that negotiate `feedback`.
pub open spec fn negotiated(sdp: Seq<char>, feedback: Seq<char>) -> Seq<u8> {
    read_lines(lines(sdp), feedback).found
}

pub open spec fn char_words(ws: Seq<Vec<char>>) -> Seq<Seq<char>> {
    ws.map_values(|w: Vec<char>| w@)
}

/// The payload types offered by the m-line whose words are `ws`, when it is an accepted video section.
pub open spec fn offered_here(ws: Seq<Seq<char>>) -> Set<u8> {
    if ws.len() > 3 && starts_with(ws[0], "m="@) && video_section(ws) {
        payload_types(ws.skip(3)).to_set()
    } else {
        Set::empty()
    }
}

/// The payload types offered by some accepted video m-line among the lines `ls`.
pub open spec fn offered(ls: Seq<Seq<char>>) -> Set<u8>
    decreases ls.len(),
{
    if ls.len() == 0 {
        Set::empty()
    } else {
        offered(ls.drop_last()).union(offered_here(words(ls.last())))
    }
}

proof fn lemma_read_stays_offered(ls: Seq<Seq<char>>, feedback: Seq<char>)
    ensures
        forall|pt: u8| #[trigger] read_lines(ls, feedback).found.contains(pt) ==> offered(ls).contains(pt),
        forall|pt: u8| #[trigger] read_lines(ls, feedback).accepted.contains(pt) ==> offered(ls).contains(pt),
    decreases ls.len(),
{
    if ls.len() > 0 {
        let before = read_lines(ls.drop_last(), feedback);
        lemma_read_stays_offered(ls.drop_last(), feedback);
        let ws = words(ls.last());
        let after = read_lines(ls, feedback);
        assert forall|pt: u8| #[trigger] after.found.contains(pt) implies offered(ls).contains(pt) by {
            if !before.found.contains(pt) {
                let i = choose|i: int| 0 <= i < after.found.len() && after.found[i] == pt;
                if i >= before.found.len() && after.found.len() == before.found.len() + before.accepted.len()
                    && after.found == before.found + before.accepted {
                    assert(before.accepted[i - before.found.len()] == pt);
                    assert(before.accepted.contains(pt));
                }
            }
        }
        assert forall|pt: u8| #[trigger] after.accepted.contains(pt) implies offered(ls).contains(pt) by {
            if !before.accepted.contains(pt) {
                assert(payload_types(ws.skip(3)).to_set().contains(pt));
            }
        }
    }
}

/// Feedback is negotiated only for payload types that an accepted video m-line of the
/// description offers: never for audio, rejected sections or payloads nobody offered.
pub proof fn law_feedback_only_for_offered_video(sdp: Seq<char>, feedback: Seq<char>, pt: u8)
    requires
        negotiated(sdp, feedback).contains(pt),
    ensures
        offered(lines(sdp)).contains(pt),
{
    lemma_read_stays_offered(lines(sdp), feedback);
}

proof fn lemma_lines_nonempty(s: Seq<char>)
    ensures
        lines(s).len() >= 1,
    decreases s.len(),
{
    if s.len() > 0 {
        lemma_lines_nonempty(s.drop_last());
    }
}

proof fn lemma_lines_join(a: Seq<char>, b: Seq<char>)
    ensures
        lines(a + seq!['\n'] + b) == lines(a) + lines(b),
    decreases b.len(),
{
    let joined = a + seq!['\n'] + b;
    if b.len() == 0 {
        assert(joined.drop_last() =~= a);
        assert(lines(a).push(Seq::empty()) =~= lines(a) + lines(b));
    } else {
        let shorter = b.drop_last();
        lemma_lines_join(a, shorter);
        lemma_lines_nonempty(shorter);
        assert(joined.drop_last() =~= a + seq!['\n'] + shorter);
        let la = lines(a);
        let lb = lines(shorter);
        if b.last() == '\n' {
            assert((la + lb).push(Seq::empty()) =~= la + lb.push(Seq::empty()));
        } else {
            let both = la + lb;
            assert(both.last() == lb.last());
            assert(both.update(both.len() - 1, both.last().push(b.last())) =~= la + lb.update(
                lb.len() - 1,
                lb.last().push(b.last()),
            ));
        }
    }
}

/// Whether the line whose words are `ws` opens a media section.
pub open spec fn is_media_line(ws: Seq<Seq<char>>) -> bool {
    ws.len() > 0 && starts_with(ws[0], "m="@)
}

proof fn lemma_foreign_section_adds_nothing(ls: Seq<Seq<char>>, section: Seq<Seq<char>>, feedback: Seq<char>, k: int)
    requires
        1 <= k <= section.len(),
        is_media_line(words(section[0])),
        words(section[0])[0] != "m=video"@,
        forall|j: int| 1 <= j < section.len() ==> !is_media_line(words(#[trigger] section[j])),
    ensures
        read_lines(ls + section.take(k), feedback).found == read_lines(ls, feedback).found,
        !read_lines(ls + section.take(k), feedback).video,
    decreases k,
{
    let all = ls + section.take(k);
    assert(all.drop_last() =~= ls + section.take(k - 1));
    assert(all.last() == section[k - 1]);
    if k == 1 {
        assert(section.take(0) =~= Seq::<Seq<char>>::empty());
        assert(ls + section.take(0) =~= ls);
    } else {
        lemma_foreign_section_adds_nothing(ls, section, feedback, k - 1);
        assert(!is_media_line(words(section[k - 1])));
    }
}

/// Feedback does not leak across media sections: appending to a description a section
/// that another kind of media opens (its first line an m-line other than `m=video`),
/// with its attribute lines and no further m-line, negotiates no payload type it did
/// not negotiate before, not even with `a=rtcp-fb:*`.
pub proof fn law_foreign_section_negotiates_nothing(sdp: Seq<char>, section: Seq<char>, feedback: Seq<char>)
    requires
        is_media_line(words(lines(section)[0])),
        words(lines(section)[0])[0] != "m=video"@,
        forall|j: int| 1 <= j < lines(section).len() ==> !is_media_line(words(#[trigger] lines(section)[j])),
    ensures
        negotiated(sdp + seq!['\n'] + section, feedback) == negotiated(sdp, feedback),
{
    lemma_lines_join(sdp, section);
    lemma_lines_nonempty(section);
    let ls = lines(sdp);
    let extra = lines(section);
    lemma_foreign_section_adds_nothing(ls, extra, feedback, extra.len() as int);
    assert(extra.take(extra.len() as int) =~= extra);
}

fn is_space_char(c: char) -> (space: bool)
    ensures
        space == is_space(c),
{
    let n = c as u32;
    (0x09 <= n && n <= 0x0d) || n == 0x20 || n == 0x85 || n == 0xa0 || n == 0x1680 || (0x2000 <= n && n
        <= 0x200a) || n == 0x2028 || n == 0x2029 || n == 0x202f || n == 0x205f || n == 0x3000
}

/// The words of one line.
fn words_of(line: &Vec<char>) -> (found: Vec<Vec<char>>)
    ensures
        char_words(found@) == words(line@),
{
    let mut done: Vec<Vec<char>> = Vec::new();
    let mut word: Vec<char> = Vec::new();
    let mut k: usize = 0;
    while k < line.len()
        invariant
            k <= line@.len(),
            (char_words(done@), word@) == word_scan(line@.take(k as int)),
        decreases line@.len() - k,
    {
        assert(line@.take(k as int + 1).drop_last() =~= line@.take(k as int));
        let c = line[k];
        if is_space_char(c) {
            if word.len() > 0 {
                let finished = word;
                word = Vec::new();
                done.push(finished);
            } else {
                word = Vec::new();
            }
        } else {
            word.push(c);
        }
        k += 1;
        assert(char_words(done@) =~= word_scan(line@.take(k as int)).0);
    }
    assert(line@.take(line@.len() as int) =~= line@);
    if word.len() > 0 {
        done.push(word);
    }
    assert(char_words(done@) =~= words(line@));
    done
}

proof fn lemma_digits_grow(d: Seq<char>, k: int)
    requires
        0 <= k <= d.len(),
    ensures
        digits_value(d.take(k)) <= digits_value(d),
    decreases d.len() - k,
{
    if k < d.len() {
        lemma_digits_grow(d, k + 1);
        assert(d.take(k + 1).drop_last() =~= d.take(k));
    } else {
        assert(d.take(k) =~= d);
    }
}

/// Parses `w` as `str::parse::<T>()` does for an unsigned `T` whose largest value is `max`.
fn parse_unsigned(w: &Vec<char>, max: u32) -> (value: Option<u32>)
    ensures
        match value {
            Some(v) => parse_uint(w@, max as nat) == Some(v as nat),
            None => parse_uint(w@, max as nat) is None,
        },
{
    let start: usize = if w.len() > 0 && w[0] == '+' { 1 } else { 0 };
    let ghost d = unsigned_digits(w@);
    assert(d =~= w@.skip(start as int));
    if start >= w.len() {
        return None;
    }
    let mut value: u32 = 0;
    let mut k: usize = start;
    while k < w.len()
        invariant
            start <= k <= w@.len(),
            d == w@.skip(start as int),
            d == unsigned_digits(w@),
            value as nat == digits_value(d.take(k - start)),
            value <= max,
            forall|i: int| 0 <= i < k - start ==> #[trigger] is_digit(d[i]),
        decreases w@.len() - k,
    {
        let c = w[k];
        assert(d[k - start] == c);
        if !('0' as u32 <= c as u32 && c as u32 <= '9' as u32) {
            assert(!is_digit(d[k - start]));
            assert(!all_digits(d));
            return None;
        }
        let next: u64 = (value as u64) * 10 + (c as u32 - '0' as u32) as u64;
        assert(d.take(k - start + 1).drop_last() =~= d.take(k - start));
        assert(d.take(k - start + 1).last() == c);
        assert(digits_value(d.take(k - start + 1)) == next);
        if next > max as u64 {
            proof {
                if all_digits(d) {
                    lemma_digits_grow(d, k - start + 1);
                }
            }
            return None;
        }
        value = next as u32;
        k += 1;
    }
    assert(d.take(k - start) =~= d);
    Some(value)
}

/// The characters of `w` before its first `/`.
fn before_slash(w: &Vec<char>) -> (prefix: Vec<char>)
    ensures
        prefix@ == until_slash(w@),
{
    let mut prefix: Vec<char> = Vec::new();
    let mut k: usize = 0;
    assert(w@.skip(0) =~= w@);
    assert(w@.take(0) + until_slash(w@) =~= until_slash(w@));
    while k < w.len() && w[k] != '/'
        invariant
            k <= w@.len(),
            prefix@ == w@.take(k as int),
            until_slash(w@) == w@.take(k as int) + until_slash(w@.skip(k as int)),
        decreases w@.len() - k,
    {
        let ghost rest = w@.skip(k as int);
        assert(rest.skip(1) =~= w@.skip(k as int + 1));
        assert(w@.take(k as int + 1) =~= w@.take(k as int) + seq![rest[0]]);
        prefix.push(w[k]);
        k += 1;
    }
    prefix
}

fn has_prefix(w: &Vec<char>, prefix: &Vec<char>) -> (found: bool)
    ensures
        found == starts_with(w@, prefix@),
{
    if prefix.len() > w.len() {
        return false;
    }
    let mut k: usize = 0;
    while k < prefix.len()
        invariant
            k <= prefix@.len() <= w@.len(),
            w@.take(k as int) == prefix@.take(k as int),
        decreases prefix@.len() - k,
    {
        if w[k] != prefix[k] {
            assert(w@.take(prefix@.len() as int)[k as int] != prefix@[k as int]);
            return false;
        }
        assert(w@.take(k as int + 1) =~= w@.take(k as int).push(w@[k as int]));
        assert(prefix@.take(k as int + 1) =~= prefix@.take(k as int).push(prefix@[k as int]));
        k += 1;
    }
    assert(prefix@.take(k as int) =~= prefix@);
    true
}

/// The fixed words the reader compares against.
struct Literals {
    media: Vec<char>,
    video: Vec<char>,
    attribute: Vec<char>,
    any: Vec<char>,
}

impl Literals {
    spec fn wf(&self) -> bool {
        &&& self.media@ == "m="@
        &&& self.video@ == "m=video"@
        &&& self.attribute@ == "a=rtcp-fb:"@
        &&& self.any@ == "*"@
    }

    fn new() -> (lits: Self)
        ensures
            lits.wf(),
    {
        Literals { media: chars_of("m="), video: chars_of("m=video"), attribute: chars_of("a=rtcp-fb:"), any: chars_of("*") }
    }
}

/// The reader's state; `marks[pt]` records that `pt` was found.
struct Reader {
    video: bool,
    accepted: Vec<u8>,
    marks: Vec<bool>,
    found: Ghost<Seq<u8>>,
}

impl Reader {
    spec fn model(&self) -> FeedbackScan {
        FeedbackScan { video: self.video, accepted: self.accepted@, found: self.found@ }
    }

    spec fn wf(&self) -> bool {
        &&& self.marks@.len() == 256
        &&& forall|pt: u8| #[trigger] self.marks@[pt as int] == self.found@.contains(pt)
    }

    fn new() -> (reader: Self)
        ensures
            reader.wf(),
            reader.model() == read_lines(Seq::empty(), Seq::empty()),
    {
        let mut marks: Vec<bool> = Vec::new();
        let mut k: usize = 0;
        while k < 256
            invariant
                k <= 256,
                marks@.len() == k,
                forall|i: int| 0 <= i < k ==> !#[trigger] marks@[i],
            decreases 256 - k,
        {
            marks.push(false);
            k += 1;
        }
        Reader { video: false, accepted: Vec::new(), marks, found: Ghost(Seq::empty()) }
    }

    fn mark(&mut self, pt: u8)
        requires
            old(self).wf(),
        ensures
            final(self).wf(),
            final(self).model() == (FeedbackScan { found: old(self).found@.push(pt), ..old(self).model() }),
    {
        self.marks.set(pt as usize, true);
        self.found = Ghost(self.found@.push(pt));
        assert forall|q: u8| #[trigger] self.marks@[q as int] == self.found@.contains(q) by {
            let before = old(self).found@;
            assert(old(self).marks@[q as int] == before.contains(q));
            if before.contains(q) {
                let i = choose|i: int| 0 <= i < before.len() && before[i] == q;
                assert(self.found@[i] == q);
            }
            if self.found@.contains(q) && q != pt {
                let i = choose|i: int| 0 <= i < self.found@.len() && self.found@[i] == q;
                assert(i < before.len());
                assert(before[i] == q);
            }
            assert(self.found@[before.len() as int] == pt);
        }
    }

    fn mark_all(&mut self)
        requires
            old(self).wf(),
        ensures
            final(self).wf(),
            final(self).model() == (FeedbackScan { found: old(self).found@ + old(self).accepted@, ..old(self).model() }),
    {
        let mut k: usize = 0;
        while k < self.accepted.len()
            invariant
                0 <= k <= self.accepted@.len(),
                self.wf(),
                self.video == old(self).video,
                self.accepted@ == old(self).accepted@,
                self.found@ == old(self).found@ + old(self).accepted@.take(k as int),
            decreases self.accepted@.len() - k,
        {
            let pt = self.accepted[k];
            self.mark(pt);
            assert(old(self).accepted@.take(k as int + 1) =~= old(self).accepted@.take(k as int).push(pt));
            k += 1;
        }
        assert(old(self).accepted@.take(k as int) =~= old(self).accepted@);
    }
}

/// Whether the port word of an m-line is a non-zero `u16` before any `/count`.
fn port_open(word: &Vec<char>) -> (open: bool)
    ensures
        open == match parse_uint(until_slash(word@), 65535) {
            Some(port) => port != 0,
            None => false,
        },
{
    let port = before_slash(word);
    match parse_unsigned(&port, 65535) {
        Some(p) => p != 0,
        None => false,
    }
}

/// The payload types among `ws[from..]`.
fn payload_types_from(ws: &Vec<Vec<char>>, from: usize) -> (types: Vec<u8>)
    requires
        from <= ws@.len(),
    ensures
        types@ == payload_types(char_words(ws@).skip(from as int)),
{
    let ghost all = char_words(ws@);
    let mut types: Vec<u8> = Vec::new();
    let mut k: usize = from;
    assert(all.subrange(from as int, from as int) =~= Seq::<Seq<char>>::empty());
    while k < ws.len()
        invariant
            from <= k <= ws@.len(),
            all == char_words(ws@),
            types@ == payload_types(all.subrange(from as int, k as int)),
        decreases ws@.len() - k,
    {
        assert(all.subrange(from as int, k as int + 1).drop_last() =~= all.subrange(from as int, k as int));
        assert(all.subrange(from as int, k as int + 1).last() == ws@[k as int]@);
        match parse_unsigned(&ws[k], 255) {
            Some(pt) => types.push(pt as u8),
            None => {},
        }
        k += 1;
    }
    assert(all.subrange(from as int, k as int) =~= all.skip(from as int));
    types
}

/// The characters of `w` from index `from` on.
fn tail(w: &Vec<char>, from: usize) -> (rest: Vec<char>)
    requires
        from <= w@.len(),
    ensures
        rest@ == w@.skip(from as int),
{
    let mut rest: Vec<char> = Vec::new();
    let mut k: usize = from;
    while k < w.len()
        invariant
            from <= k <= w@.len(),
            rest@ == w@.subrange(from as int, k as int),
        decreases w@.len() - k,
    {
        rest.push(w[k]);
        k += 1;
        assert(rest@ =~= w@.subrange(from as int, k as int));
    }
    rest
}

/// Whether `list` holds `x`.
pub fn holds(list: &Vec<u8>, x: u8) -> (found: bool)
    ensures
        found == list@.contains(x),
{
    let mut k: usize = 0;
    while k < list.len()
        invariant
            k <= list@.len(),
            forall|i: int| 0 <= i < k ==> list@[i] != x,
        decreases list@.len() - k,
    {
        if list[k] == x {
            assert(list@[k as int] == x);
            return true;
        }
        k += 1;
    }
    false
}

impl Reader {
    /// Reads one line whose words are `ws`.
    fn read(&mut self, ws: &Vec<Vec<char>>, feedback: &Vec<char>, lits: &Literals)
        requires
            old(self).wf(),
            lits.wf(),
        ensures
            final(self).wf(),
            final(self).model() == read_line(old(self).model(), char_words(ws@), feedback@),
    {
        let ghost all = char_words(ws@);
        if ws.len() > 0 && has_prefix(&ws[0], &lits.media) {
            let video = ws.len() > 1 && same(&ws[0], &lits.video) && port_open(&ws[1]);
            self.video = video;
            self.accepted = if video && ws.len() > 3 { payload_types_from(ws, 3) } else { Vec::new() };
        } else if self.video && ws.len() > 0 && has_prefix(&ws[0], &lits.attribute) {
            let rest = tail(&ws[0], lits.attribute.len());
            let ghost fields = feedback_fields(all);
            let count: usize = if rest.len() > 0 { ws.len() } else { ws.len() - 1 };
            assert(fields.len() == count);
            if count == 2 {
                let first: &Vec<char> = if rest.len() > 0 { &rest } else { &ws[1] };
                let second: &Vec<char> = if rest.len() > 0 { &ws[1] } else { &ws[2] };
                assert(fields[0] == first@);
                assert(fields[1] == second@);
                if same(second, feedback) {
                    if same(first, &lits.any) {
                        self.mark_all();
                    } else {
                        match parse_unsigned(first, 255) {
                            Some(pt) => {
                                if holds(&self.accepted, pt as u8) {
                                    self.mark(pt as u8);
                                }
                            },
                            None => {},
                        }
                    }
                }
            }
        }
    }
}

/// The payload types, ascending and each once, of the accepted video sections of `sdp`
/// that negotiate the RTCP feedback `feedback` (such as `nack` or `goog-remb`).
pub fn feedback_payloads(sdp: &str, feedback: &str) -> (payloads: Vec<u8>)
    ensures
        forall|i: int, j: int| 0 <= i < j < payloads@.len() ==> payloads@[i] < payloads@[j],
        forall|pt: u8| payloads@.contains(pt) <==> negotiated(sdp@, feedback@).contains(pt),
{
    let text = chars_of(sdp);
    let wanted = chars_of(feedback);
    let lits = Literals::new();
    let mut reader = Reader::new();
    let mut line: Vec<char> = Vec::new();
    let mut k: usize = 0;
    assert(text@.take(0) =~= Seq::<char>::empty());
    while k < text.len()
        invariant
            k <= text@.len(),
            text@ == sdp@,
            wanted@ == feedback@,
            lits.wf(),
            reader.wf(),
            lines(text@.take(k as int)).len() >= 1,
            reader.model() == read_lines(lines(text@.take(k as int)).drop_last(), wanted@),
            line@ == lines(text@.take(k as int)).last(),
        decreases text@.len() - k,
    {
        let ghost before = lines(text@.take(k as int));
        assert(text@.take(k as int + 1).drop_last() =~= text@.take(k as int));
        let c = text[k];
        if c == '\n' {
            let ws = words_of(&line);
            assert(before.push(Seq::empty()).drop_last() =~= before);
            assert(before =~= before.drop_last().push(before.last()));
            reader.read(&ws, &wanted, &lits);
            line = Vec::new();
        } else {
            line.push(c);
            assert(before.update(before.len() - 1, before.last().push(c)).drop_last() =~= before.drop_last());
        }
        k += 1;
    }
    proof {
        assert(text@.take(k as int) =~= text@);
        let all = lines(text@);
        assert(all =~= all.drop_last().push(all.last()));
    }
    let ws = words_of(&line);
    reader.read(&ws, &wanted, &lits);
    let mut payloads: Vec<u8> = Vec::new();
    let mut x: usize = 0;
    while x < 256
        invariant
            x <= 256,
            reader.wf(),
            reader.model().found == negotiated(sdp@, feedback@),
            forall|i: int, j: int| 0 <= i < j < payloads@.len() ==> payloads@[i] < payloads@[j],
            forall|i: int| 0 <= i < payloads@.len() ==> payloads@[i] < x,
            forall|pt: u8| pt < x ==> (payloads@.contains(pt) <==> reader.marks@[pt as int]),
            forall|pt: u8| pt >= x ==> !payloads@.contains(pt),
        decreases 256 - x,
    {
        let ghost previous = payloads@;
        if reader.marks[x] {
            payloads.push(x as u8);
        }
        assert forall|pt: u8| pt < x + 1 implies (payloads@.contains(pt) <==> reader.marks@[pt as int]) by {
            if pt < x {
                if payloads@.contains(pt) {
                    let i = choose|i: int| 0 <= i < payloads@.len() && payloads@[i] == pt;
                    if i < previous.len() {
                        assert(previous[i] == pt);
                    }
                }
                if previous.contains(pt) {
                    let i = choose|i: int| 0 <= i < previous.len() && previous[i] == pt;
                    assert(payloads@[i] == pt);
                }
            } else {
                if reader.marks@[pt as int] {
                    assert(payloads@[previous.len() as int] == pt);
                }
                if payloads@.contains(pt) && !reader.marks@[pt as int] {
                    let i = choose|i: int| 0 <= i < payloads@.len() && payloads@[i] == pt;
                    assert(payloads@ == previous);
                    assert(previous[i] < x);
                }
            }
        }
        x += 1;
    }
    payloads
}

/// The payload types that negotiate Google receiver-estimated maximum bitrate.
pub fn remb_payloads(sdp: &str) -> (payloads: Vec<u8>)
    ensures
        forall|i: int, j: int| 0 <= i < j < payloads@.len() ==> payloads@[i] < payloads@[j],
        forall|pt: u8| payloads@.contains(pt) <==> negotiated(sdp@, "goog-remb"@).contains(pt),
{
    feedback_payloads(sdp, "goog-remb")
}

} // verus!
