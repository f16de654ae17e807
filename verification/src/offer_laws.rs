//! What the receiver of an offer reads of the start bitrate announced in it.

use crate::h264;
use crate::h264::OfferedView;
use crate::strings;
use vstd::prelude::*;

verus! {

/// `o` with the start bitrate `kbps`.
pub open spec fn with_start(o: OfferedView, kbps: u32) -> OfferedView {
    OfferedView { start_bitrate_kbps: Some(kbps), ..o }
}

/// Line `i` is the one that is read: of least rank, and the earliest of that rank.
pub open spec fn is_chosen(lines: Seq<Seq<char>>, pts: Seq<u8>, i: int) -> bool {
    &&& 0 <= i < lines.len()
    &&& h264::candidate(lines[i], pts) is Some
    &&& forall|j: int|
        0 <= j < lines.len() && h264::candidate(#[trigger] lines[j], pts) is Some ==> {
            let best = (h264::candidate(lines[i], pts)->0).0;
            let other = (h264::candidate(lines[j], pts)->0).0;
            best <= other && (j < i ==> best < other)
        }
}

/// The announced start bitrate is read back from the offer, and nothing else of the H.264 that
/// the offer prefers changes, as long as the offer announced none before.
pub proof fn announced_start_bitrate_is_read_back(sdp: Seq<char>, kbps: u32)
    requires
        !strings::has_text(sdp, "x-google-start-bitrate"@),
        h264::offered_in(sdp) is Some,
        h264::offered_in(sdp)->0.profile_level_id.len() > 0,
    ensures
        h264::offered_in(h264::announced(sdp, h264::start_note(kbps))) == Some(
            with_start(h264::offered_in(sdp)->0, kbps),
        ),
{
    let raw = strings::split(sdp, '\n');
    let lines = h264::sdp_lines(sdp);
    let pts = h264::h264_payload_types(lines);
    lemma_some_chosen(lines, pts);
    let i = choose|i: int| is_chosen(lines, pts, i);
    lemma_chosen_is_best(lines, pts, i);
    assert(lines[i] == strings::trim_end(raw[i]));
    lemma_piece_in(sdp, '\n', i);
    lemma_profile_is_written(raw[i], pts);
    let body = h264::without_eol(raw[i]);
    let long = "x-google-start-bitrate="@;
    let short = "x-google-start-bitrate"@;
    if strings::has_text(body, long) {
        lemma_literals();
        h264::lemma_without_eol(raw[i]);
        assert(long.subrange(0, 22) =~= short);
        assert(strings::occurs_at(long, short, 0));
        assert(strings::occurs_at(raw[i], body, 0));
        lemma_text_in_text(short, long, body);
        lemma_text_in_text(short, body, raw[i]);
        lemma_text_in_text(short, raw[i], sdp);
    }
    chosen_line_takes_the_start_bitrate(sdp, kbps, i);
}

/// Where the line that is read takes the note, the announced start bitrate is read back, whatever
/// the other lines say.
pub proof fn chosen_line_takes_the_start_bitrate(sdp: Seq<char>, kbps: u32, i: int)
    requires
        is_chosen(h264::sdp_lines(sdp), h264::h264_payload_types(h264::sdp_lines(sdp)), i),
        h264::lacks_start_bitrate(h264::without_eol(strings::split(sdp, '\n')[i])),
    ensures
        h264::offered_in(sdp) is Some,
        h264::offered_in(h264::announced(sdp, h264::start_note(kbps))) == Some(
            with_start(h264::offered_in(sdp)->0, kbps),
        ),
{
    let before = h264::sdp_lines(sdp);
    let after = h264::sdp_lines(h264::announced(sdp, h264::start_note(kbps)));
    let pts = h264::h264_payload_types(before);
    lemma_lines(sdp, kbps);
    lemma_chosen_is_best(before, pts, i);
    assert(is_chosen(after, pts, i));
    lemma_chosen_is_best(after, pts, i);
}

/// Announcing a start bitrate offers no H.264 where there was none.
pub proof fn announcing_offers_nothing_new(sdp: Seq<char>, kbps: u32)
    ensures
        h264::offered_in(h264::announced(sdp, h264::start_note(kbps))) is Some
            <==> h264::offered_in(sdp) is Some,
{
    let before = h264::sdp_lines(sdp);
    let after = h264::sdp_lines(h264::announced(sdp, h264::start_note(kbps)));
    let pts = h264::h264_payload_types(before);
    lemma_lines(sdp, kbps);
    if h264::offered_in(sdp) is Some {
        lemma_some_chosen(before, pts);
        let i = choose|i: int| is_chosen(before, pts, i);
        assert(is_chosen(after, pts, i));
        lemma_chosen_is_best(after, pts, i);
    }
    if h264::best_candidate(after, pts) is Some {
        lemma_some_chosen(after, pts);
        let i = choose|i: int| is_chosen(after, pts, i);
        assert(h264::candidate(after[i], pts) is Some);
        assert forall|j: int|
            0 <= j < before.len() && h264::candidate(#[trigger] before[j], pts) is Some implies ({
            let best = (h264::candidate(before[i], pts)->0).0;
            let other = (h264::candidate(before[j], pts)->0).0;
            best <= other && (j < i ==> best < other)
        }) by {
            assert(h264::candidate(after[j], pts) is Some);
        }
        assert(is_chosen(before, pts, i));
        lemma_chosen_is_best(before, pts, i);
    }
}

/// What is read of each line, before and after the announcement.
proof fn lemma_lines(sdp: Seq<char>, kbps: u32)
    ensures
        ({
            let raw = strings::split(sdp, '\n');
            let before = h264::sdp_lines(sdp);
            let after = h264::sdp_lines(h264::announced(sdp, h264::start_note(kbps)));
            let pts = h264::h264_payload_types(before);
            &&& after.len() == before.len() == raw.len()
            &&& h264::h264_payload_types(after) == pts
            &&& forall|i: int|
                0 <= i < raw.len() ==> h264::candidate(#[trigger] after[i], pts) == (
                match h264::candidate(before[i], pts) {
                    Some(c) => if h264::lacks_start_bitrate(h264::without_eol(raw[i])) {
                        Some((c.0, with_start(c.1, kbps)))
                    } else {
                        Some(c)
                    },
                    None => None,
                })
        }),
{
    let note = h264::start_note(kbps);
    let raw = strings::split(sdp, '\n');
    let sent = h264::announced(sdp, note);
    h264::lemma_note(kbps);
    lemma_split_announced(sdp, kbps);
    let before = h264::sdp_lines(sdp);
    let after = h264::sdp_lines(sent);
    assert forall|i: int| 0 <= i < raw.len() implies {
        &&& h264::mapped_h264(#[trigger] after[i]) == h264::mapped_h264(before[i])
        &&& forall|pts: Seq<u8>|
            #![trigger h264::candidate(after[i], pts)]
            h264::candidate(after[i], pts) == (match h264::candidate(before[i], pts) {
                Some(c) => if h264::lacks_start_bitrate(h264::without_eol(raw[i])) {
                    Some((c.0, with_start(c.1, kbps)))
                } else {
                    Some(c)
                },
                None => None,
            })
    } by {
        assert(after[i] == strings::trim_end(h264::annotated(raw[i], note)));
        lemma_line(raw[i], kbps);
    }
    lemma_same_types(before, after);
}

/// A chosen line is the best candidate.
proof fn lemma_chosen_is_best(lines: Seq<Seq<char>>, pts: Seq<u8>, i: int)
    requires
        is_chosen(lines, pts, i),
    ensures
        h264::best_candidate(lines, pts) == h264::candidate(lines[i], pts),
    decreases lines.len(),
{
    let n = lines.len() - 1;
    let rest = lines.drop_last();
    assert(lines.last() == lines[n]);
    if i < n {
        assert forall|j: int|
            0 <= j < rest.len() && h264::candidate(#[trigger] rest[j], pts) is Some implies ({
            let best = (h264::candidate(rest[i], pts)->0).0;
            let other = (h264::candidate(rest[j], pts)->0).0;
            best <= other && (j < i ==> best < other)
        }) by {
            assert(rest[j] == lines[j]);
        }
        assert(is_chosen(rest, pts, i));
        lemma_chosen_is_best(rest, pts, i);
    } else if h264::best_candidate(rest, pts) is Some {
        lemma_some_chosen(rest, pts);
        let k = choose|k: int| is_chosen(rest, pts, k);
        lemma_chosen_is_best(rest, pts, k);
        assert(rest[k] == lines[k]);
    }
}

/// Where there is a best candidate, a line is chosen.
proof fn lemma_some_chosen(lines: Seq<Seq<char>>, pts: Seq<u8>)
    requires
        h264::best_candidate(lines, pts) is Some,
    ensures
        exists|i: int|
            is_chosen(lines, pts, i) && h264::candidate(lines[i], pts) == h264::best_candidate(
                lines,
                pts,
            ),
    decreases lines.len(),
{
    let n = lines.len() - 1;
    let rest = lines.drop_last();
    let before = h264::best_candidate(rest, pts);
    let best = h264::best_candidate(lines, pts)->0;
    assert(lines.last() == lines[n]);
    if before is Some {
        lemma_some_chosen(rest, pts);
        let k = choose|k: int|
            is_chosen(rest, pts, k) && h264::candidate(rest[k], pts) == before;
        assert(rest[k] == lines[k]);
        let i = if best == before->0 && !(h264::candidate(lines[n], pts) is Some
            && (h264::candidate(lines[n], pts)->0).0 < (before->0).0) {
            k
        } else {
            n
        };
        assert forall|j: int|
            0 <= j < lines.len() && h264::candidate(#[trigger] lines[j], pts) is Some implies ({
            let b = (h264::candidate(lines[i], pts)->0).0;
            let other = (h264::candidate(lines[j], pts)->0).0;
            b <= other && (j < i ==> b < other)
        }) by {
            if j < n {
                assert(rest[j] == lines[j]);
            }
        }
        assert(is_chosen(lines, pts, i));
    } else {
        assert forall|j: int| 0 <= j < n implies h264::candidate(#[trigger] lines[j], pts) is None by {
            lemma_no_best(rest, pts, j);
            assert(rest[j] == lines[j]);
        }
        assert(is_chosen(lines, pts, n));
    }
}

/// Without a best candidate, no line is one.
proof fn lemma_no_best(lines: Seq<Seq<char>>, pts: Seq<u8>, j: int)
    requires
        h264::best_candidate(lines, pts) is None,
        0 <= j < lines.len(),
    ensures
        h264::candidate(lines[j], pts) is None,
    decreases lines.len(),
{
    if j < lines.len() - 1 {
        lemma_no_best(lines.drop_last(), pts, j);
        assert(lines.drop_last()[j] == lines[j]);
    }
}

/// A text in a text of a third is in the third.
proof fn lemma_text_in_text(a: Seq<char>, b: Seq<char>, c: Seq<char>)
    requires
        strings::has_text(b, a),
        strings::has_text(c, b),
    ensures
        strings::has_text(c, a),
{
    let i = choose|i: int| #[trigger] strings::occurs_at(b, a, i);
    let j = choose|j: int| #[trigger] strings::occurs_at(c, b, j);
    assert forall|x: int| 0 <= x < a.len() implies c.subrange(i + j, i + j + a.len())[x] == a[x] by {
        assert(b.subrange(i, i + a.len())[x] == b[i + x]);
        assert(c.subrange(j, j + b.len())[i + x] == c[i + j + x]);
    }
    assert(c.subrange(i + j, i + j + a.len()) =~= a);
    assert(strings::occurs_at(c, a, i + j));
}

/// A piece of a text is in it.
proof fn lemma_piece_in(s: Seq<char>, c: char, i: int)
    requires
        0 <= i < strings::split(s, c).len(),
    ensures
        strings::has_text(s, strings::split(s, c)[i]),
    decreases s.len(),
{
    let k = strings::find(s, c);
    strings::lemma_find(s, c);
    if k < s.len() {
        let rest = s.skip(k + 1);
        let parts = strings::split(s, c);
        assert(parts == seq![s.take(k)] + strings::split(rest, c));
        if i == 0 {
            assert(s.subrange(0, k) =~= s.take(k));
            assert(strings::occurs_at(s, s.take(k), 0));
        } else {
            assert(parts[i] == strings::split(rest, c)[i - 1]);
            lemma_piece_in(rest, c, i - 1);
            assert(s.subrange(k + 1, s.len() as int) =~= rest);
            assert(strings::occurs_at(s, rest, k + 1));
            lemma_text_in_text(parts[i], rest, s);
        }
    } else {
        assert(s.subrange(0, s.len() as int) =~= s);
        assert(strings::occurs_at(s, s, 0));
    }
}

/// A trimmed text is in the text.
proof fn lemma_trimmed_in(s: Seq<char>)
    ensures
        strings::has_text(s, strings::trim(s)),
{
    let t = strings::trim_end(s);
    lemma_trim_end(s);
    assert(s.subrange(0, t.len() as int) =~= t);
    assert(strings::occurs_at(s, t, 0));
    lemma_start_trimmed_in(t);
    lemma_text_in_text(strings::trim(s), t, s);
}

proof fn lemma_start_trimmed_in(s: Seq<char>)
    ensures
        strings::has_text(s, strings::trim_start(s)),
    decreases s.len(),
{
    if s.len() > 0 && strings::is_white(s[0]) {
        let rest = s.drop_first();
        lemma_start_trimmed_in(rest);
        assert(s.subrange(1, s.len() as int) =~= rest);
        assert(strings::occurs_at(s, rest, 1));
        lemma_text_in_text(strings::trim_start(s), rest, s);
    } else {
        assert(s.subrange(0, s.len() as int) =~= s);
        assert(strings::occurs_at(s, s, 0));
    }
}

/// A parameter with a value is among the parameters, as `key=`.
proof fn lemma_value_is_written(params: Seq<Seq<char>>, key: Seq<char>)
    requires
        h264::last_value(params, key) is Some,
        h264::last_value(params, key)->0.len() > 0,
    ensures
        exists|i: int|
            0 <= i < params.len() && strings::has_text(#[trigger] params[i], key.push('=')),
    decreases params.len(),
{
    let n = params.len() - 1;
    let kv = params.last();
    assert(params[n] == kv);
    if h264::param_key(kv) == key {
        let k = strings::find(kv, '=');
        strings::lemma_find(kv, '=');
        assert(kv.subrange(0, k + 1) =~= key.push('='));
        assert(strings::occurs_at(kv, key.push('='), 0));
        assert(strings::has_text(params[n], key.push('=')));
    } else {
        let rest = params.drop_last();
        lemma_value_is_written(rest, key);
        let i = choose|i: int|
            0 <= i < rest.len() && strings::has_text(#[trigger] rest[i], key.push('='));
        assert(params[i] == rest[i]);
    }
}

/// A line that offers a profile is an fmtp line that writes it.
proof fn lemma_profile_is_written(raw: Seq<char>, pts: Seq<u8>)
    requires
        h264::candidate(strings::trim_end(raw), pts) is Some,
        (h264::candidate(strings::trim_end(raw), pts)->0).1.profile_level_id.len() > 0,
    ensures
        strings::occurs_at(h264::without_eol(raw), "a=fmtp:"@, 0),
        strings::has_text(h264::without_eol(raw), "profile-level-id="@),
{
    let line = strings::trim_end(raw);
    let body = h264::without_eol(raw);
    let fm = "a=fmtp:"@;
    let pl = "profile-level-id="@;
    lemma_literals();
    lemma_trim_end(raw);
    h264::lemma_without_eol(raw);
    // The trimmed line is a start of the body.
    assert(line.len() <= body.len()) by {
        if body.len() < line.len() {
            assert(raw.take(line.len() as int)[line.len() - 1] == raw[line.len() - 1]);
            assert(h264::is_eol(raw[line.len() - 1]));
        }
    }
    assert(body.subrange(0, line.len() as int) =~= line) by {
        assert forall|x: int| 0 <= x < line.len() implies body[x] == line[x] by {
            assert(raw.take(line.len() as int)[x] == raw[x]);
            assert(raw.take(body.len() as int)[x] == raw[x]);
        }
    }
    assert(strings::occurs_at(body, line, 0));
    assert(body.subrange(0, 7) =~= line.subrange(0, 7));
    assert(strings::occurs_at(body, fm, 0));
    let rest = line.skip(7);
    let i = strings::find(rest, ' ');
    strings::lemma_find(rest, ' ');
    let params = (h264::attribute(line, fm)->0).1;
    assert(strings::has_text(line, params)) by {
        if i < rest.len() {
            assert(params == rest.skip(i + 1));
            assert(line.subrange(8 + i, line.len() as int) =~= params);
            assert(strings::occurs_at(line, params, 8 + i));
        } else {
            assert(line.subrange(0, 0) =~= params);
            assert(strings::occurs_at(line, params, 0));
        }
    }
    let list = h264::fmtp_params(params);
    let key = "profile-level-id"@;
    lemma_value_is_written(list, key);
    let x = choose|x: int|
        0 <= x < list.len() && strings::has_text(#[trigger] list[x], key.push('='));
    reveal_strlit("profile-level-id=");
    reveal_strlit("profile-level-id");
    assert(key.push('=') =~= pl);
    let piece = strings::split(params, ';')[x];
    assert(list[x] == strings::trim(piece));
    lemma_trimmed_in(piece);
    lemma_piece_in(params, ';', x);
    lemma_text_in_text(pl, list[x], piece);
    lemma_text_in_text(pl, piece, params);
    lemma_text_in_text(pl, params, line);
    lemma_text_in_text(pl, line, body);
}

/// The lines of an announced description are the annotated lines.
proof fn lemma_split_announced(sdp: Seq<char>, kbps: u32)
    ensures
        strings::split(h264::announced(sdp, h264::start_note(kbps)), '\n') == strings::split(
            sdp,
            '\n',
        ).map_values(|l: Seq<char>| h264::annotated(l, h264::start_note(kbps))),
    decreases sdp.len(),
{
    let note = h264::start_note(kbps);
    let f = |l: Seq<char>| h264::annotated(l, note);
    let i = strings::find(sdp, '\n');
    strings::lemma_find(sdp, '\n');
    h264::lemma_note(kbps);
    if i == sdp.len() {
        assert(sdp.take(sdp.len() as int) == sdp);
        assert(sdp.skip(sdp.len() as int) == Seq::<char>::empty());
        if sdp.len() == 0 {
            reveal_strlit("a=fmtp:");
            assert(h264::annotated(sdp, note) == sdp);
        }
        let sent = h264::announced(sdp, note);
        if sdp.len() > 0 {
            assert(h264::announced(sdp.skip(h264::line_len(sdp)), note) == Seq::<char>::empty());
            assert(sent == h264::annotated(sdp, note) + Seq::<char>::empty());
        }
        assert(sent == h264::annotated(sdp, note));
        lemma_no_feed(sdp, kbps);
        strings::lemma_find_is(sent, '\n', sent.len() as int);
        assert(strings::split(sdp, '\n') == seq![sdp]);
        assert(strings::split(sent, '\n') == seq![sent]);
        assert(seq![sdp].map_values(f) == seq![sent]);
    } else {
        let p = sdp.take(i);
        let line = sdp.take(i + 1);
        let rest = sdp.skip(i + 1);
        assert(line.drop_last() == p);
        assert(h264::without_eol(line) == h264::without_eol(p));
        h264::lemma_without_eol(p);
        let body = h264::without_eol(p);
        let a = h264::annotated(p, note);
        assert(line.skip(body.len() as int) == p.skip(body.len() as int).push('\n'));
        assert(h264::annotated(line, note) == a.push('\n'));
        lemma_no_feed(p, kbps);
        let tail = h264::announced(rest, note);
        let sent = h264::announced(sdp, note);
        assert(sent == a.push('\n') + tail);
        assert forall|j: int| 0 <= j < a.len() implies sent[j] != '\n' by {
            assert(sent[j] == a[j]);
        }
        assert(sent[a.len() as int] == '\n');
        strings::lemma_find_is(sent, '\n', a.len() as int);
        assert(sent.take(a.len() as int) == a);
        assert(sent.skip(a.len() as int + 1) == tail);
        lemma_split_announced(rest, kbps);
        assert(strings::split(sdp, '\n') == seq![p] + strings::split(rest, '\n'));
        assert((seq![p] + strings::split(rest, '\n')).map_values(f) == seq![a] + strings::split(
            rest,
            '\n',
        ).map_values(f));
    }
}

/// A line without a line feed has none once annotated.
proof fn lemma_no_feed(line: Seq<char>, kbps: u32)
    requires
        forall|j: int| 0 <= j < line.len() ==> line[j] != '\n',
    ensures
        ({
            let a = h264::annotated(line, h264::start_note(kbps));
            forall|j: int| 0 <= j < a.len() ==> a[j] != '\n'
        }),
{
    let note = h264::start_note(kbps);
    let a = h264::annotated(line, note);
    let body = h264::without_eol(line);
    h264::lemma_note(kbps);
    h264::lemma_without_eol(line);
    assert forall|j: int| 0 <= j < a.len() implies a[j] != '\n' by {
        if h264::lacks_start_bitrate(body) {
            if j < body.len() {
                assert(a[j] == line[j]);
            } else if j < body.len() + note.len() {
                assert(a[j] == note[j - body.len()]);
            } else {
                assert(a[j] == line[j - note.len()]);
            }
        }
    }
}

/// What white space trimming leaves, and what it takes away.
proof fn lemma_trim_end(s: Seq<char>)
    ensures
        strings::trim_end(s).len() <= s.len(),
        s.take(strings::trim_end(s).len() as int) == strings::trim_end(s),
        forall|j: int| strings::trim_end(s).len() <= j < s.len() ==> strings::is_white(#[trigger] s[j]),
        strings::trim_end(s).len() > 0 ==> !strings::is_white(strings::trim_end(s).last()),
    decreases s.len(),
{
    if s.len() > 0 && strings::is_white(s.last()) {
        let l = s.drop_last();
        lemma_trim_end(l);
        let n = strings::trim_end(s).len() as int;
        assert(s.take(n) == l.take(n));
        assert forall|j: int| n <= j < s.len() implies strings::is_white(#[trigger] s[j]) by {
            if j < l.len() {
                assert(l[j] == s[j]);
            }
        }
    } else {
        assert(s.take(s.len() as int) == s);
    }
}

/// A text that ends in no white space and is followed by white space only is what remains.
proof fn lemma_trim_end_is(t: Seq<char>, s: Seq<char>)
    requires
        t.len() <= s.len(),
        s.take(t.len() as int) == t,
        forall|j: int| t.len() <= j < s.len() ==> strings::is_white(#[trigger] s[j]),
        t.len() > 0 ==> !strings::is_white(t.last()),
    ensures
        strings::trim_end(s) == t,
    decreases s.len(),
{
    if t.len() == s.len() {
        assert(s == t);
    } else {
        let l = s.drop_last();
        assert(l.take(t.len() as int) == t);
        assert forall|j: int| t.len() <= j < l.len() implies strings::is_white(#[trigger] l[j]) by {
            assert(l[j] == s[j]);
        }
        lemma_trim_end_is(t, l);
    }
}

/// Trimming the end leaves the start alone.
proof fn lemma_trim_end_skip(s: Seq<char>, m: int)
    requires
        0 <= m <= strings::trim_end(s).len(),
    ensures
        strings::trim_end(s.skip(m)) == strings::trim_end(s).skip(m),
{
    lemma_trim_end(s);
    let t = strings::trim_end(s);
    let u = s.skip(m);
    assert(u.take(t.len() - m) == t.skip(m));
    assert forall|j: int| t.len() - m <= j < u.len() implies strings::is_white(#[trigger] u[j]) by {
        assert(u[j] == s[j + m]);
    }
    if t.len() > m {
        assert(t.skip(m).last() == t.last());
    }
    lemma_trim_end_is(t.skip(m), u);
}

/// What is read of one line, before and after it is annotated.
proof fn lemma_line(raw: Seq<char>, kbps: u32)
    ensures
        ({
            let note = h264::start_note(kbps);
            let before = strings::trim_end(raw);
            let after = strings::trim_end(h264::annotated(raw, note));
            &&& h264::mapped_h264(after) == h264::mapped_h264(before)
            &&& forall|pts: Seq<u8>|
                #![trigger h264::candidate(after, pts)]
                h264::candidate(after, pts) == (match h264::candidate(before, pts) {
                    Some(c) => if h264::lacks_start_bitrate(h264::without_eol(raw)) {
                        Some((c.0, with_start(c.1, kbps)))
                    } else {
                        Some(c)
                    },
                    None => None,
                })
        }),
{
    let note = h264::start_note(kbps);
    let body = h264::without_eol(raw);
    if h264::lacks_start_bitrate(body) {
        let before = strings::trim_end(raw);
        let long = body + note;
        let a = h264::annotated(raw, note);
        h264::lemma_note(kbps);
        h264::lemma_without_eol(raw);
        strings::decimal_is_read_back(kbps as nat, kbps as nat);
        let d = strings::decimal(kbps as nat);
        assert(note.last() == d[d.len() - 1]);
        assert(long.last() == note.last());
        assert(a == long + raw.skip(body.len() as int));
        assert(a.take(long.len() as int) == long);
        assert forall|j: int| long.len() <= j < a.len() implies strings::is_white(#[trigger] a[j]) by {
            assert(a[j] == raw[j - note.len()]);
            assert(h264::is_eol(raw[j - note.len()]));
        }
        lemma_trim_end_is(long, a);
        // Trimming the line and trimming its body leave the same text.
        let t = strings::trim_end(body);
        lemma_trim_end(body);
        assert(raw.take(t.len() as int) == body.take(t.len() as int));
        assert forall|j: int| t.len() <= j < raw.len() implies strings::is_white(#[trigger] raw[j]) by {
            if j < body.len() {
                assert(raw[j] == body[j]);
            } else {
                assert(h264::is_eol(raw[j]));
            }
        }
        lemma_trim_end_is(t, raw);
        lemma_fmtp_line(body, kbps);
    }
}

/// The letters of `profile-level-id=` and of the prefixes.
proof fn lemma_literals()
    ensures
        "a=fmtp:"@.len() == 7,
        "a=rtpmap:"@.len() == 9,
        "a=fmtp:"@[2] == 'f',
        "a=rtpmap:"@[2] == 'r',
        "a=fmtp:"@[5] == 'p',
        "a=fmtp:"@[6] == ':',
        "a=fmtp:"@ == seq!['a', '=', 'f', 'm', 't', 'p', ':'],
        "profile-level-id="@.len() == 17,
        "profile-level-id="@[0] == 'p',
        "profile-level-id="@[1] == 'r',
        forall|j: int|
            0 <= j < 17 ==> !strings::is_white(#[trigger] "profile-level-id="@[j]),
        "x-google-start-bitrate"@ + seq!['='] == "x-google-start-bitrate="@,
        "x-google-start-bitrate"@.len() == 22,
        forall|j: int| 0 <= j < 22 ==> #[trigger] "x-google-start-bitrate"@[j] != '=',
        "profile-level-id"@.len() == 16,
        "packetization-mode"@.len() == 18,
        "x-google-start-bitrate="@[0] == 'x',
        forall|j: int|
            0 <= j < 23 ==> #[trigger] "x-google-start-bitrate="@[j] != ';'
                && "x-google-start-bitrate="@[j] != ' ',
{
    reveal_strlit("a=fmtp:");
    reveal_strlit("a=rtpmap:");
    reveal_strlit("profile-level-id=");
    reveal_strlit("profile-level-id");
    reveal_strlit("packetization-mode");
    reveal_strlit("x-google-start-bitrate");
    reveal_strlit("x-google-start-bitrate=");
    assert("a=fmtp:"@ =~= seq!['a', '=', 'f', 'm', 't', 'p', ':']);
    assert("x-google-start-bitrate"@ + seq!['='] =~= "x-google-start-bitrate="@);
}

/// A text with a letter in it is no number.
proof fn lemma_not_a_number(s: Seq<char>, j: int, max: nat)
    requires
        0 <= j < s.len(),
        s[j] == 'p',
    ensures
        strings::parse_unsigned(s, max) is None,
{
    let d = strings::unsigned_digits(s);
    if s[0] == '+' {
        assert(d[j - 1] == s[j]);
    } else {
        assert(d[j] == s[j]);
    }
}

/// What is read of an fmtp line that lacks a start bitrate, with and without the note.
proof fn lemma_fmtp_line(body: Seq<char>, kbps: u32)
    requires
        h264::lacks_start_bitrate(body),
    ensures
        ({
            let before = strings::trim_end(body);
            let after = body + h264::start_note(kbps);
            &&& h264::mapped_h264(after) == h264::mapped_h264(before)
            &&& forall|pts: Seq<u8>|
                #![trigger h264::candidate(after, pts)]
                h264::candidate(after, pts) == (match h264::candidate(before, pts) {
                    Some(c) => Some((c.0, with_start(c.1, kbps))),
                    None => None,
                })
        }),
{
    let note = h264::start_note(kbps);
    let before = strings::trim_end(body);
    let after = body + note;
    let fm = "a=fmtp:"@;
    let rm = "a=rtpmap:"@;
    let pl = "profile-level-id="@;
    lemma_literals();
    lemma_trim_end(body);
    h264::lemma_note(kbps);
    let k = choose|k: int| #[trigger] strings::occurs_at(body, pl, k);
    let j = k - 7;
    assert forall|x: int| 0 <= x < 17 implies #[trigger] body[k + x] == pl[x] by {
        assert(body.subrange(k, k + 17)[x] == body[k + x]);
    }
    assert forall|x: int| 0 <= x < 7 implies #[trigger] body[x] == fm[x] by {
        assert(body.subrange(0, 7)[x] == body[x]);
    }
    assert(body[k + 0] == 'p' && body[k + 1] == 'r');
    // The name stands after the prefix, and is not trimmed away.
    assert(k >= 7) by {
        if k < 7 {
            assert(body[k] == fm[k]);
            if k < 6 {
                assert(body[k + 1] == fm[k + 1]);
            }
        }
    }
    assert(k + 17 <= before.len()) by {
        if before.len() < k + 17 {
            assert(body[k + 16] == pl[16]);
            assert(strings::is_white(body[k + 16]));
        }
    }
    assert(before.subrange(0, 7) == body.subrange(0, 7));
    assert(after.subrange(0, 7) == body.subrange(0, 7));
    assert(!strings::occurs_at(before, rm, 0)) by {
        if strings::occurs_at(before, rm, 0) {
            assert(before.subrange(0, 9)[2] == before[2]);
            assert(body[2] == fm[2]);
        }
    }
    assert(!strings::occurs_at(after, rm, 0)) by {
        if strings::occurs_at(after, rm, 0) {
            assert(after.subrange(0, 9)[2] == after[2]);
            assert(body[2] == fm[2]);
        }
    }
    let rest = body.skip(7);
    let rest_b = before.skip(7);
    let rest_a = after.skip(7);
    let i = strings::find(rest, ' ');
    strings::lemma_find(rest, ' ');
    assert(rest[j] == body[k]);
    assert(rest_b[j] == body[k]);
    assert(rest_a[j] == body[k]);
    if i < j {
        assert forall|x: int| 0 <= x < i implies rest_b[x] != ' ' && rest_a[x] != ' ' by {
            assert(rest_b[x] == rest[x]);
            assert(rest_a[x] == rest[x]);
        }
        assert(rest_b[i] == rest[i] && rest_a[i] == rest[i]);
        strings::lemma_find_is(rest_b, ' ', i);
        strings::lemma_find_is(rest_a, ' ', i);
        assert(rest_b.take(i) == rest.take(i));
        assert(rest_a.take(i) == rest.take(i));
        let params = rest.skip(i + 1);
        assert(params == body.skip(8 + i));
        lemma_trim_end_skip(body, 8 + i);
        assert(rest_b.skip(i + 1) == strings::trim_end(params));
        assert(rest_a.skip(i + 1) == params + note);
        lemma_params(params, kbps);
        assert forall|pts: Seq<u8>| true implies #[trigger] h264::candidate(after, pts) == (
        match h264::candidate(before, pts) {
            Some(c) => Some((c.0, with_start(c.1, kbps))),
            None => None,
        }) by {
            match strings::parse_unsigned(rest.take(i), 255) {
                Some(pt) => {
                    lemma_read_params(
                        pt as u8,
                        h264::fmtp_params(strings::trim_end(params)),
                        kbps,
                    );
                },
                None => {},
            }
        }
    } else {
        // The name is part of what should be a number.
        let ib = strings::find(rest_b, ' ');
        let ia = strings::find(rest_a, ' ');
        strings::lemma_find(rest_b, ' ');
        strings::lemma_find(rest_a, ' ');
        assert(ib > j) by {
            if ib <= j {
                assert(rest_b[ib] == rest[ib]);
            }
        }
        assert(ia > j) by {
            if ia <= j {
                assert(rest_a[ia] == rest[ia]);
            }
        }
        lemma_not_a_number(rest_b.take(ib), j, 255);
        lemma_not_a_number(rest_a.take(ia), j, 255);
    }
}

/// A separator and a piece behind a text add that piece.
proof fn lemma_split_push(a: Seq<char>, b: Seq<char>)
    requires
        forall|j: int| 0 <= j < b.len() ==> b[j] != ';',
    ensures
        strings::split(a.push(';') + b, ';') == strings::split(a, ';').push(b),
    decreases a.len(),
{
    let s = a.push(';') + b;
    let i = strings::find(a, ';');
    strings::lemma_find(a, ';');
    assert forall|j: int| 0 <= j < i implies s[j] != ';' by {
        assert(s[j] == a[j]);
    }
    assert(s[i] == ';') by {
        if i < a.len() {
            assert(s[i] == a[i]);
        }
    }
    strings::lemma_find_is(s, ';', i);
    assert(s.take(i) == a.take(i));
    if i < a.len() {
        let r = a.skip(i + 1);
        assert(s.skip(i + 1) == r.push(';') + b);
        lemma_split_push(r, b);
        assert(seq![a.take(i)] + strings::split(r, ';').push(b) == (seq![a.take(i)]
            + strings::split(r, ';')).push(b));
    } else {
        assert(s.skip(i + 1) == b);
        assert(a.take(i) == a);
        strings::lemma_find_is(b, ';', b.len() as int);
        assert(strings::split(b, ';') == seq![b]);
        assert(strings::split(a, ';') == seq![a]);
        assert(strings::split(s, ';') == seq![a, b]);
        assert(seq![a].push(b) == seq![a, b]);
    }
}

/// Trimming the end of the whole text changes none of its trimmed pieces.
proof fn lemma_trimmed_pieces(a: Seq<char>)
    ensures
        h264::fmtp_params(strings::trim_end(a)) == h264::fmtp_params(a),
    decreases a.len(),
{
    let t = strings::trim_end(a);
    let f = |p: Seq<char>| strings::trim(p);
    let i = strings::find(a, ';');
    strings::lemma_find(a, ';');
    lemma_trim_end(a);
    if i == a.len() {
        assert forall|j: int| 0 <= j < t.len() implies t[j] != ';' by {
            assert(t[j] == a[j]);
        }
        strings::lemma_find_is(t, ';', t.len() as int);
        assert(t.take(t.len() as int) == t);
        lemma_trim_end_is(t, t);
        assert(strings::split(a, ';') == seq![a]);
        assert(strings::split(t, ';') == seq![t]);
        assert(seq![a].map_values(f) == seq![strings::trim(a)]);
        assert(seq![t].map_values(f) == seq![strings::trim(t)]);
    } else {
        assert(i < t.len()) by {
            if t.len() <= i {
                assert(strings::is_white(a[i]));
            }
        }
        assert forall|j: int| 0 <= j < i implies t[j] != ';' by {
            assert(t[j] == a[j]);
        }
        assert(t[i] == a[i]);
        strings::lemma_find_is(t, ';', i);
        assert(t.take(i) == a.take(i));
        lemma_trim_end_skip(a, i + 1);
        let r = a.skip(i + 1);
        lemma_trimmed_pieces(r);
        assert((seq![a.take(i)] + strings::split(r, ';')).map_values(f) == seq![
            strings::trim(a.take(i)),
        ] + h264::fmtp_params(r));
        assert((seq![a.take(i)] + strings::split(strings::trim_end(r), ';')).map_values(f) == seq![
            strings::trim(a.take(i)),
        ] + h264::fmtp_params(strings::trim_end(r)));
    }
}

/// The note adds one parameter.
proof fn lemma_params(params: Seq<char>, kbps: u32)
    ensures
        h264::fmtp_params(params + h264::start_note(kbps)) == h264::fmtp_params(
            strings::trim_end(params),
        ).push(h264::start_note(kbps).skip(1)),
{
    let note = h264::start_note(kbps);
    let n = note.skip(1);
    let d = strings::decimal(kbps as nat);
    let f = |p: Seq<char>| strings::trim(p);
    h264::lemma_note(kbps);
    lemma_literals();
    strings::decimal_is_read_back(kbps as nat, kbps as nat);
    lemma_note_param(kbps);
    assert forall|j: int| 0 <= j < n.len() implies n[j] != ';' by {
        if j >= 23 {
            assert(n[j] == d[j - 23]);
        } else {
            assert(n[j] == "x-google-start-bitrate="@[j]);
        }
    }
    assert(params + note == params.push(';') + n);
    lemma_split_push(params, n);
    lemma_trimmed_pieces(params);
    assert(n.last() == d[d.len() - 1]);
    assert(n.take(n.len() as int) == n);
    lemma_trim_end_is(n, n);
    assert(n[0] == 'x');
    assert(strings::trim(n) == n);
    assert(strings::split(params, ';').push(n).map_values(f) == strings::split(
        params,
        ';',
    ).map_values(f).push(n));
}

/// The note, without its separator, is the parameter and the number.
proof fn lemma_note_param(kbps: u32)
    ensures
        h264::start_note(kbps).skip(1) == "x-google-start-bitrate="@ + strings::decimal(
            kbps as nat,
        ),
{
    reveal_strlit(";x-google-start-bitrate=");
    reveal_strlit("x-google-start-bitrate=");
    assert(";x-google-start-bitrate="@.skip(1) =~= "x-google-start-bitrate="@);
    assert(h264::start_note(kbps).skip(1) =~= "x-google-start-bitrate="@ + strings::decimal(
        kbps as nat,
    ));
}

/// One more parameter that announces a start bitrate changes that bitrate alone.
proof fn lemma_read_params(pt: u8, params: Seq<Seq<char>>, kbps: u32)
    ensures
        h264::read_params(pt, params.push(h264::start_note(kbps).skip(1))) == (
        match h264::read_params(pt, params) {
            Some(o) => Some(with_start(o, kbps)),
            None => None,
        }),
{
    let kv = h264::start_note(kbps).skip(1);
    let d = strings::decimal(kbps as nat);
    let name = "x-google-start-bitrate"@;
    lemma_literals();
    lemma_note_param(kbps);
    strings::decimal_is_read_back(kbps as nat, u32::MAX as nat);
    assert forall|j: int| 0 <= j < 22 implies kv[j] != '=' by {
        assert(kv[j] == name[j]);
    }
    assert(kv[22] == (name + seq!['='])[22]);
    strings::lemma_find_is(kv, '=', 22);
    assert(h264::param_key(kv) == name);
    assert(h264::param_value(kv) == d);
    let more = params.push(kv);
    assert(more.drop_last() == params);
    let p = |kv: Seq<char>| h264::is_codec_param(kv);
    params.lemma_filter_push(kv, p);
    assert(h264::param_key(kv).len() == 22);
    assert(h264::last_value(more, "profile-level-id"@) == h264::last_value(
        params,
        "profile-level-id"@,
    ));
    assert(h264::last_value(more, "packetization-mode"@) == h264::last_value(
        params,
        "packetization-mode"@,
    ));
    assert(h264::last_value(more, name) == Some(d));
}

/// Lines that map the same payload types map them in the same order.
proof fn lemma_same_types(a: Seq<Seq<char>>, b: Seq<Seq<char>>)
    requires
        a.len() == b.len(),
        forall|i: int|
            0 <= i < a.len() ==> h264::mapped_h264(#[trigger] b[i]) == h264::mapped_h264(a[i]),
    ensures
        h264::h264_payload_types(a) == h264::h264_payload_types(b),
    decreases a.len(),
{
    let f = |l: Seq<char>| h264::mapped_h264(l);
    if a.len() > 0 {
        let n = a.len() - 1;
        lemma_same_types(a.drop_last(), b.drop_last());
        assert(a.take(n) == a.drop_last());
        assert(b.take(n) == b.drop_last());
        assert(a.take(n + 1) == a);
        assert(b.take(n + 1) == b);
        a.lemma_filter_map_take_succ(f, n);
        b.lemma_filter_map_take_succ(f, n);
    } else {
        assert(a =~= b);
    }
}

/// An offer is read at the fmtp line whose payload type comes first among those mapped to H.264,
/// and at the earliest of its lines; where no line offers H.264, the offer has none.
pub proof fn preferred_h264_is_read(sdp: Seq<char>, i: int)
    ensures
        ({
            let lines = h264::sdp_lines(sdp);
            let pts = h264::h264_payload_types(lines);
            &&& 0 <= i < lines.len() && h264::candidate(lines[i], pts) is Some && (forall|j: int|
                0 <= j < lines.len() && h264::candidate(#[trigger] lines[j], pts) is Some ==> {
                    let best = (h264::candidate(lines[i], pts)->0).0;
                    let other = (h264::candidate(lines[j], pts)->0).0;
                    best <= other && (j < i ==> best < other)
                }) ==> h264::offered_in(sdp) == Some((h264::candidate(lines[i], pts)->0).1)
            &&& (forall|j: int|
                0 <= j < lines.len() ==> h264::candidate(#[trigger] lines[j], pts) is None)
                ==> h264::offered_in(sdp) is None
        }),
{
    let lines = h264::sdp_lines(sdp);
    let pts = h264::h264_payload_types(lines);
    if 0 <= i < lines.len() && h264::candidate(lines[i], pts) is Some && (forall|j: int|
        0 <= j < lines.len() && h264::candidate(#[trigger] lines[j], pts) is Some ==> {
            let best = (h264::candidate(lines[i], pts)->0).0;
            let other = (h264::candidate(lines[j], pts)->0).0;
            best <= other && (j < i ==> best < other)
        }) {
        assert(is_chosen(lines, pts, i));
        lemma_chosen_is_best(lines, pts, i);
    }
    if h264::best_candidate(lines, pts) is Some {
        lemma_some_chosen(lines, pts);
        let k = choose|k: int| is_chosen(lines, pts, k);
        assert(h264::candidate(lines[k], pts) is Some);
    }
}

/// The lines of an offer stand between its line feeds, without white space at their end.
pub proof fn offers_are_read_line_by_line(sdp: Seq<char>, i: int)
    requires
        0 <= i < strings::split(sdp, '\n').len(),
    ensures
        h264::sdp_lines(sdp).len() == strings::split(sdp, '\n').len(),
        h264::sdp_lines(sdp)[i] == strings::trim_end(strings::split(sdp, '\n')[i]),
{
}

} // verus!
