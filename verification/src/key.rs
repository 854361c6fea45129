//! The key of a raw trace: a text that stands for the content of the trace
//! and is hashed in its place.
//!
//! Every text is written with its length in front and every number with a
//! mark behind it, so the key can be read back in one way only: two traces
//! have the same key exactly if they are the same trace.

use vstd::prelude::*;
use crate::record::{frames_view, text_view, Frame, FrameView};
use crate::text::{decimal, decimal_text, digit, joined, lemma_joined_push};

verus! {

/// One of the ten decimal digits.
pub open spec fn is_digit(c: char) -> bool {
    exists|d: nat| d < 10 && c == #[trigger] digit(d)
}

/// A text with its length in front: the numeral of its length in
/// characters, a colon, and the text.
pub open spec fn sized(text: Seq<char>) -> Seq<char> {
    decimal(text.len()) + seq![':'] + text
}

/// How an optional text is written in a key: `-` when absent, `+` and the
/// sized text when present.
pub open spec fn text_key(text: Option<Seq<char>>) -> Seq<char> {
    match text {
        Some(s) => seq!['+'] + sized(s),
        None => seq!['-'],
    }
}

/// How an optional number is written in a key: `-` when absent; `+`, the
/// decimal numeral and a semicolon when present.
pub open spec fn number_key(number: Option<u64>) -> Seq<char> {
    match number {
        Some(n) => seq!['+'] + decimal(n as nat) + seq![';'],
        None => seq!['-'],
    }
}

/// The key of one frame: its path, function, line and column, one after
/// another.
pub open spec fn frame_key(frame: FrameView) -> Seq<char> {
    sized(frame.absolute_path) + text_key(frame.function_name) + number_key(frame.line)
        + number_key(frame.column)
}

/// The key of a raw trace: the keys of its frames, in order.
pub open spec fn trace_key(frames: Seq<FrameView>) -> Seq<char> {
    joined(frames.map_values(|f: FrameView| frame_key(f)))
}

/// A numeral is made of digits, and has at least one.
pub proof fn lemma_decimal_digits(n: nat)
    ensures
        decimal(n).len() >= 1,
        n >= 10 ==> decimal(n).len() >= 2,
        forall|i: int| 0 <= i < decimal(n).len() ==> is_digit(#[trigger] decimal(n)[i]),
    decreases n,
{
    if n < 10 {
        assert(is_digit(digit(n)));
    } else {
        lemma_decimal_digits(n / 10);
        assert(is_digit(digit(n % 10)));
    }
}

/// Different numbers have different numerals.
pub proof fn lemma_decimal_injective(a: nat, b: nat)
    requires
        decimal(a) == decimal(b),
    ensures
        a == b,
    decreases a,
{
    lemma_decimal_digits(a);
    lemma_decimal_digits(b);
    if a < 10 {
        assert(decimal(a).len() == 1);
        assert(b < 10);
        assert(decimal(a)[0] == digit(a));
        assert(decimal(b)[0] == digit(b));
    } else {
        assert(b >= 10);
        let front_a = decimal(a / 10);
        let front_b = decimal(b / 10);
        assert(decimal(a).last() == digit(a % 10));
        assert(decimal(b).last() == digit(b % 10));
        assert(decimal(a).drop_last() =~= front_a);
        assert(decimal(b).drop_last() =~= front_b);
        lemma_decimal_injective(a / 10, b / 10);
    }
}

/// A numeral followed by a mark that is no digit can be read off the front
/// of a text in one way only.
pub proof fn lemma_numeral_reads_back(
    a: nat,
    b: nat,
    mark: char,
    rest_a: Seq<char>,
    rest_b: Seq<char>,
)
    requires
        !is_digit(mark),
        decimal(a) + seq![mark] + rest_a == decimal(b) + seq![mark] + rest_b,
    ensures
        a == b,
        rest_a == rest_b,
{
    let da = decimal(a);
    let db = decimal(b);
    let left = da + seq![mark] + rest_a;
    let right = db + seq![mark] + rest_b;
    lemma_decimal_digits(a);
    lemma_decimal_digits(b);
    if da.len() < db.len() {
        assert(left[da.len() as int] == mark);
        assert(right[da.len() as int] == db[da.len() as int]);
        assert(false);
    }
    if db.len() < da.len() {
        assert(right[db.len() as int] == mark);
        assert(left[db.len() as int] == da[db.len() as int]);
        assert(false);
    }
    assert(da =~= db) by {
        assert forall|i: int| 0 <= i < da.len() implies da[i] == db[i] by {
            assert(left[i] == da[i]);
            assert(right[i] == db[i]);
        }
    }
    lemma_decimal_injective(a, b);
    assert(rest_a =~= rest_b) by {
        assert(rest_a.len() == rest_b.len()) by {
            assert(left.len() == da.len() + 1 + rest_a.len());
            assert(right.len() == db.len() + 1 + rest_b.len());
        }
        assert forall|i: int| 0 <= i < rest_a.len() implies rest_a[i] == rest_b[i] by {
            assert(left[da.len() + 1 + i] == rest_a[i]);
            assert(right[db.len() + 1 + i] == rest_b[i]);
        }
    }
}

/// The colon and the semicolon are no digits.
pub proof fn lemma_marks_are_no_digits()
    ensures
        !is_digit(':'),
        !is_digit(';'),
{
    assert forall|d: nat| d < 10 implies ':' != #[trigger] digit(d) && ';' != digit(d) by {}
}

/// A sized text can be read off the front of a text in one way only.
pub proof fn lemma_sized_reads_back(
    a: Seq<char>,
    b: Seq<char>,
    rest_a: Seq<char>,
    rest_b: Seq<char>,
)
    requires
        sized(a) + rest_a == sized(b) + rest_b,
    ensures
        a == b,
        rest_a == rest_b,
{
    lemma_marks_are_no_digits();
    assert(sized(a) + rest_a =~= decimal(a.len()) + seq![':'] + (a + rest_a));
    assert(sized(b) + rest_b =~= decimal(b.len()) + seq![':'] + (b + rest_b));
    lemma_numeral_reads_back(a.len(), b.len(), ':', a + rest_a, b + rest_b);
    assert(a =~= (a + rest_a).take(a.len() as int));
    assert(b =~= (b + rest_b).take(b.len() as int));
    assert(rest_a =~= (a + rest_a).skip(a.len() as int));
    assert(rest_b =~= (b + rest_b).skip(b.len() as int));
}

/// The key of an optional text can be read off the front of a text in one
/// way only.
pub proof fn lemma_text_key_reads_back(
    a: Option<Seq<char>>,
    b: Option<Seq<char>>,
    rest_a: Seq<char>,
    rest_b: Seq<char>,
)
    requires
        text_key(a) + rest_a == text_key(b) + rest_b,
    ensures
        a == b,
        rest_a == rest_b,
{
    let left = text_key(a) + rest_a;
    let right = text_key(b) + rest_b;
    assert(left[0] == text_key(a)[0]);
    assert(right[0] == text_key(b)[0]);
    match (a, b) {
        (Some(x), Some(y)) => {
            assert(sized(x) + rest_a =~= left.skip(1));
            assert(sized(y) + rest_b =~= right.skip(1));
            lemma_sized_reads_back(x, y, rest_a, rest_b);
        },
        (None, None) => {
            assert(rest_a =~= left.skip(1));
            assert(rest_b =~= right.skip(1));
        },
        (Some(x), None) => {
            assert(text_key(a)[0] == '+');
            assert(text_key(b)[0] == '-');
        },
        (None, Some(y)) => {
            assert(text_key(a)[0] == '-');
            assert(text_key(b)[0] == '+');
        },
    }
}

/// The key of an optional number can be read off the front of a text in
/// one way only.
pub proof fn lemma_number_key_reads_back(
    a: Option<u64>,
    b: Option<u64>,
    rest_a: Seq<char>,
    rest_b: Seq<char>,
)
    requires
        number_key(a) + rest_a == number_key(b) + rest_b,
    ensures
        a == b,
        rest_a == rest_b,
{
    let left = number_key(a) + rest_a;
    let right = number_key(b) + rest_b;
    assert(left[0] == number_key(a)[0]);
    assert(right[0] == number_key(b)[0]);
    match (a, b) {
        (Some(x), Some(y)) => {
            lemma_marks_are_no_digits();
            assert(decimal(x as nat) + seq![';'] + rest_a =~= left.skip(1));
            assert(decimal(y as nat) + seq![';'] + rest_b =~= right.skip(1));
            lemma_numeral_reads_back(x as nat, y as nat, ';', rest_a, rest_b);
        },
        (None, None) => {
            assert(rest_a =~= left.skip(1));
            assert(rest_b =~= right.skip(1));
        },
        (Some(x), None) => {
            assert(number_key(a)[0] == '+');
            assert(number_key(b)[0] == '-');
        },
        (None, Some(y)) => {
            assert(number_key(a)[0] == '-');
            assert(number_key(b)[0] == '+');
        },
    }
}

/// Five texts one after another, grouped from the back.
proof fn lemma_regroup(
    p: Seq<char>,
    t: Seq<char>,
    l: Seq<char>,
    c: Seq<char>,
    r: Seq<char>,
)
    ensures
        p + t + l + c + r == p + (t + (l + (c + r))),
{
    assert(p + t + l + c + r =~= p + (t + (l + (c + r))));
}

/// The key of a frame can be read off the front of a text in one way only.
pub proof fn lemma_frame_key_reads_back(
    a: FrameView,
    b: FrameView,
    rest_a: Seq<char>,
    rest_b: Seq<char>,
)
    requires
        frame_key(a) + rest_a == frame_key(b) + rest_b,
    ensures
        a == b,
        rest_a == rest_b,
{
    let name_a = text_key(a.function_name);
    let name_b = text_key(b.function_name);
    let line_a = number_key(a.line);
    let line_b = number_key(b.line);
    let column_a = number_key(a.column);
    let column_b = number_key(b.column);
    lemma_regroup(sized(a.absolute_path), name_a, line_a, column_a, rest_a);
    lemma_regroup(sized(b.absolute_path), name_b, line_b, column_b, rest_b);
    lemma_sized_reads_back(
        a.absolute_path,
        b.absolute_path,
        name_a + (line_a + (column_a + rest_a)),
        name_b + (line_b + (column_b + rest_b)),
    );
    lemma_text_key_reads_back(
        a.function_name,
        b.function_name,
        line_a + (column_a + rest_a),
        line_b + (column_b + rest_b),
    );
    lemma_number_key_reads_back(a.line, b.line, column_a + rest_a, column_b + rest_b);
    lemma_number_key_reads_back(a.column, b.column, rest_a, rest_b);
}

/// The key of a trace that has a first frame is the key of that frame
/// followed by the key of the other frames.
pub proof fn lemma_trace_key_unfolds(frames: Seq<FrameView>)
    requires
        frames.len() > 0,
    ensures
        trace_key(frames) == frame_key(frames[0]) + trace_key(frames.drop_first()),
    decreases frames.len(),
{
    let keys = frames.map_values(|f: FrameView| frame_key(f));
    let rest = frames.drop_first();
    let rest_keys = rest.map_values(|f: FrameView| frame_key(f));
    if frames.len() == 1 {
        assert(keys.drop_last() =~= Seq::<Seq<char>>::empty());
        assert(rest_keys =~= Seq::<Seq<char>>::empty());
        assert(trace_key(frames) =~= frame_key(frames[0]) + trace_key(rest));
    } else {
        let front = frames.drop_last();
        lemma_trace_key_unfolds(front);
        assert(keys.drop_last() =~= front.map_values(|f: FrameView| frame_key(f)));
        assert(front.drop_first() =~= rest.drop_last());
        assert(rest_keys.drop_last() =~= rest.drop_last().map_values(|f: FrameView| frame_key(f)));
        assert(front[0] == frames[0]);
        assert(keys.last() == rest_keys.last());
        assert(trace_key(frames) =~= frame_key(frames[0]) + trace_key(rest));
    }
}

/// Two traces with the same key are the same trace: the key loses nothing
/// of a trace's content.
pub proof fn lemma_trace_key_injective(a: Seq<FrameView>, b: Seq<FrameView>)
    requires
        trace_key(a) == trace_key(b),
    ensures
        a == b,
    decreases a.len(),
{
    if a.len() == 0 && b.len() == 0 {
        assert(a =~= b);
    } else if a.len() == 0 {
        lemma_trace_key_unfolds(b);
        lemma_decimal_digits(b[0].absolute_path.len());
        assert(frame_key(b[0]).len() >= 1);
        assert(a.map_values(|f: FrameView| frame_key(f)) =~= Seq::<Seq<char>>::empty());
        assert(trace_key(a).len() == 0);
        assert(false);
    } else if b.len() == 0 {
        lemma_trace_key_unfolds(a);
        lemma_decimal_digits(a[0].absolute_path.len());
        assert(frame_key(a[0]).len() >= 1);
        assert(b.map_values(|f: FrameView| frame_key(f)) =~= Seq::<Seq<char>>::empty());
        assert(trace_key(b).len() == 0);
        assert(false);
    } else {
        lemma_trace_key_unfolds(a);
        lemma_trace_key_unfolds(b);
        lemma_frame_key_reads_back(
            a[0],
            b[0],
            trace_key(a.drop_first()),
            trace_key(b.drop_first()),
        );
        lemma_trace_key_injective(a.drop_first(), b.drop_first());
        assert(a =~= seq![a[0]] + a.drop_first());
        assert(b =~= seq![b[0]] + b.drop_first());
    }
}

/// Appends a text with its length in front.
fn append_sized(out: &mut String, text: &str)
    ensures
        final(out)@ == old(out)@ + sized(text@),
{
    let length: usize = text.unicode_len();
    let numeral = decimal_text(length as u64);
    out.append(numeral.as_str());
    out.append(":");
    out.append(text);
    proof {
        reveal_strlit(":");
        assert(":"@ =~= seq![':']);
        assert(out@ =~= old(out)@ + sized(text@));
    }
}

/// Appends the key of an optional text.
fn append_text_key(out: &mut String, text: &Option<String>)
    ensures
        final(out)@ == old(out)@ + text_key(text_view(*text)),
{
    proof {
        reveal_strlit("+");
        reveal_strlit("-");
        assert("+"@ =~= seq!['+']);
        assert("-"@ =~= seq!['-']);
    }
    match text {
        Some(s) => {
            out.append("+");
            append_sized(out, s.as_str());
            assert(out@ =~= old(out)@ + (seq!['+'] + sized(s@)));
        },
        None => {
            out.append("-");
        },
    }
}

/// Appends the key of an optional number.
fn append_number_key(out: &mut String, number: Option<u64>)
    ensures
        final(out)@ == old(out)@ + number_key(number),
{
    proof {
        reveal_strlit("+");
        reveal_strlit("-");
        reveal_strlit(";");
        assert("+"@ =~= seq!['+']);
        assert("-"@ =~= seq!['-']);
        assert(";"@ =~= seq![';']);
    }
    match number {
        Some(n) => {
            let numeral = decimal_text(n);
            out.append("+");
            out.append(numeral.as_str());
            out.append(";");
            assert(out@ =~= old(out)@ + (seq!['+'] + decimal(n as nat) + seq![';']));
        },
        None => {
            out.append("-");
        },
    }
}

/// Appends the key of one frame.
fn append_frame_key(out: &mut String, frame: &Frame)
    ensures
        final(out)@ == old(out)@ + frame_key(frame@),
{
    append_sized(out, frame.absolute_path.as_str());
    append_text_key(out, &frame.function_name);
    append_number_key(out, frame.line);
    append_number_key(out, frame.column);
    assert(out@ =~= old(out)@ + frame_key(frame@));
}

/// Writes out the key of a raw trace.
pub fn raw_trace_text(frames: &Vec<Frame>) -> (key: String)
    ensures
        key@ == trace_key(frames_view(frames@)),
{
    let ghost keys = frames_view(frames@).map_values(|f: FrameView| frame_key(f));
    let mut key = String::new();
    let mut i: usize = 0;
    assert(joined(keys.take(0)) =~= Seq::<char>::empty());
    while i < frames.len()
        invariant
            i <= frames.len(),
            keys == frames_view(frames@).map_values(|f: FrameView| frame_key(f)),
            key@ == joined(keys.take(i as int)),
        decreases frames.len() - i,
    {
        append_frame_key(&mut key, &frames[i]);
        proof {
            assert(keys[i as int] == frame_key(frames@[i as int]@));
            assert(keys.take(i + 1) =~= keys.take(i as int).push(keys[i as int]));
            lemma_joined_push(keys.take(i as int), keys[i as int]);
        }
        i = i + 1;
    }
    assert(keys.take(i as int) =~= keys);
    key
}

} // verus!
