//! What the texts say.
use vstd::prelude::*;
use crate::error::Error;
use crate::frame::texts;
use crate::status::Status;
use crate::tags::Tag;
use crate::text::{decimal, decimal_of, join, joined, same_text, text_le, with};
use crate::wav::WavError;

verus! {

/// The number that decimal digits stand for.
pub open spec fn number_of(digits: Seq<char>) -> int
    decreases digits.len(),
{
    if digits.len() == 0 {
        0
    } else {
        10 * number_of(digits.drop_last()) + (digits.last() as int - '0' as int)
    }
}

/// Whether these are the decimal digits of a number, without zeros in front.
pub open spec fn are_digits_of(digits: Seq<char>, n: int) -> bool {
    &&& digits.len() >= 1
    &&& digits.len() >= 2 ==> digits[0] != '0'
    &&& forall|i: int| 0 <= i < digits.len() ==> '0' <= #[trigger] digits[i] <= '9'
    &&& number_of(digits) == n
}

proof fn lemma_digits(n: nat)
    ensures
        are_digits_of(decimal_of(n), n as int),
        n > 0 ==> decimal_of(n)[0] != '0',
    decreases n,
{
    let d = decimal_of(n);
    if n < 10 {
        assert(d.drop_last() =~= seq![]);
        assert(number_of(d.drop_last()) == 0);
    } else {
        lemma_digits(n / 10);
        let head = decimal_of(n / 10);
        assert(d.drop_last() =~= head);
        assert forall|i: int| 0 <= i < d.len() implies '0' <= #[trigger] d[i] <= '9' by {
            if i < head.len() {
                assert(d[i] == head[i]);
            }
        }
        assert(d[0] == head[0]);
    }
}

/// A number in decimal is told by its digits.
pub proof fn law_decimal(n: u128, s: String)
    requires
        call_ensures(decimal, (n,), s),
    ensures
        are_digits_of(s@, n as int),
{
    lemma_digits(n as nat);
}

/// A number has one text: two texts of digits that stand for it are the same.
pub proof fn law_digits_are_told_apart(a: Seq<char>, b: Seq<char>, n: int)
    requires
        are_digits_of(a, n),
        are_digits_of(b, n),
    ensures
        a == b,
    decreases a.len(),
{
    lemma_number_is_not_negative(a);
    lemma_number_is_not_negative(b);
    let (x, y) = (a.drop_last(), b.drop_last());
    lemma_number_is_not_negative(x);
    lemma_number_is_not_negative(y);
    assert(a.last() as int - '0' as int == n % 10 && number_of(x) == n / 10);
    assert(b.last() as int - '0' as int == n % 10 && number_of(y) == n / 10);
    assert(a.last() == b.last());
    if x.len() == 0 || y.len() == 0 {
        assert(x.len() == 0 && y.len() == 0);
    } else {
        assert(x[0] == a[0] && y[0] == b[0]);
        law_digits_are_told_apart(x, y, n / 10);
    }
    assert(a =~= x.push(a.last()));
    assert(b =~= y.push(b.last()));
    assert(x =~= y);
}

proof fn lemma_number_is_not_negative(digits: Seq<char>)
    requires
        forall|i: int| 0 <= i < digits.len() ==> '0' <= #[trigger] digits[i] <= '9',
    ensures
        number_of(digits) >= 0,
        digits.len() > 0 && digits[0] != '0' ==> number_of(digits) > 0,
    decreases digits.len(),
{
    if digits.len() > 0 {
        lemma_number_is_not_negative(digits.drop_last());
        if digits.len() > 1 {
            assert(digits.drop_last()[0] == digits[0]);
        }
    }
}

/// Nothing joined is nothing, one text joined is itself, and every further text comes behind the
/// separator.
pub proof fn law_join(few: &[String], more: &[String], sep: &str, s: String, t: String, last: String)
    requires
        call_ensures(join, (few, sep), s),
        call_ensures(join, (more, sep), t),
        more@ == few@.push(last),
    ensures
        few@.len() == 0 ==> s@.len() == 0 && t@ == last@,
        few@.len() > 0 ==> t@ == s@ + sep@ + last@,
{
    let all = texts(more@);
    assert(all.drop_last() =~= texts(few@));
    assert(all.last() == last@);
    if few@.len() == 0 {
        assert(t@ =~= last@);
    }
}

/// Texts in a row, with another between each two.
pub open spec fn with_between(parts: Seq<String>, sep: Seq<char>) -> Seq<char>
    decreases parts.len(),
{
    if parts.len() == 0 {
        seq![]
    } else if parts.len() == 1 {
        parts[0]@
    } else {
        parts[0]@ + sep + with_between(parts.drop_first(), sep)
    }
}

proof fn lemma_with_between(parts: Seq<String>, sep: Seq<char>)
    ensures
        joined(texts(parts), sep) == with_between(parts, sep),
    decreases parts.len(),
{
    if parts.len() >= 2 {
        let all = texts(parts);
        let rest = parts.drop_first();
        lemma_with_between(rest, sep);
        lemma_joined_from_front(all, sep);
        assert(all.drop_first() =~= texts(rest));
    }
}

proof fn lemma_joined_from_front(parts: Seq<Seq<char>>, sep: Seq<char>)
    requires
        parts.len() >= 2,
    ensures
        joined(parts, sep) == parts[0] + sep + joined(parts.drop_first(), sep),
    decreases parts.len(),
{
    let rest = parts.drop_first();
    let fewer = parts.drop_last();
    if parts.len() == 2 {
        assert(joined(fewer, sep) == parts[0]);
        assert(joined(rest, sep) == parts[1]);
        assert(joined(parts, sep) =~= parts[0] + sep + joined(rest, sep));
    } else {
        lemma_joined_from_front(fewer, sep);
        assert(fewer.drop_first() =~= rest.drop_last());
        assert(rest.last() == parts.last());
        assert(joined(parts, sep) =~= parts[0] + sep + joined(rest, sep));
    }
}

/// Two texts, one behind the other, are the first and then the second; the same texts are the same.
pub proof fn law_texts(head: &str, tail: &str, both: String, same: bool)
    requires
        call_ensures(with, (head, tail), both),
        call_ensures(same_text, (head, tail), same),
    ensures
        both@ == head@ + tail@,
        same <==> head@ == tail@,
{
}

/// A text comes before any longer one that starts with it, and of two that part ways the one with
/// the smaller character there comes first.
pub proof fn law_text_order(start: Seq<char>, a: Seq<char>, b: Seq<char>)
    ensures
        text_le(start, start + b),
        b.len() > 0 ==> !text_le(start + b, start),
        a.len() > 0 && b.len() > 0 && a[0] != b[0] ==> (text_le(start + a, start + b) <==> a[0]
            < b[0]),
    decreases start.len(),
{
    if start.len() == 0 {
        assert(start + a =~= a);
        assert(start + b =~= b);
    } else {
        let rest = start.drop_first();
        law_text_order(rest, a, b);
        assert((start + a).drop_first() =~= rest + a);
        assert((start + b).drop_first() =~= rest + b);
    }
}

/// What each status says.
pub proof fn law_status_texts(status: Status, s: String, digits: Seq<char>)
    requires
        call_ensures(Status::text, (&status,), s),
        match status {
            Status::Building { stages, .. } => are_digits_of(digits, stages as int),
            Status::OpeningConfig(stage) => are_digits_of(digits, stage + 1),
            Status::Reconfigured { stage, .. } => are_digits_of(digits, stage + 1),
            _ => true,
        },
    ensures
        match status {
            Status::EmptyChain => s@ == "empty chain — add a DSP to start"@,
            Status::MixedArch(file) => s@ == "chain mixes x86 + x64 ("@ + file@
                + " differs) — the worker & protocol support it, but cross-arch needs one worker per arch with blocks routed between them; this demo keeps a chain single-arch (that router is the host app's job — see docs/PROTOCOL.md)"@,
            Status::WorkerMissing { x86 } => s@ == "the "@ + (if x86 {
                "x86"@
            } else {
                "x64"@
            }) + " worker isn't built — build.ps1 builds both"@,
            Status::Building { x86, .. } => s@ == "building chain of "@ + digits + " ("@ + (if x86 {
                "x86"@
            } else {
                "x64"@
            }) + ") …"@,
            Status::SpawnFailed(e) => s@ == "worker spawn failed: "@ + e@,
            Status::BuildFailed(e) => s@ == "chain build failed: "@ + e@,
            Status::ProcessFailed(e) => s@ == "process failed: "@ + e@,
            Status::Ready { names, delta } => s@ == "chain ready: "@ + with_between(names@, " · "@)
                + "  ("@ + delta@ + " dB vs raw)"@,
            Status::NoChain => s@ == "apply a chain first"@,
            Status::StageGone => s@ == "stage no longer in the chain — Apply first"@,
            Status::OpeningConfig(_) => s@ == "opening stage "@ + digits
                + "’s config dialog — adjust + OK …"@,
            Status::ConfigFailed(e) => s@ == "config failed: "@ + e@,
            Status::ReprocessFailed(e) => s@ == "reprocess failed: "@ + e@,
            Status::Reconfigured { delta, .. } => s@ == "stage "@ + digits
                + " reconfigured — chain now "@ + delta@ + " dB vs raw"@,
        },
{
    match status {
        Status::Building { stages, .. } => {
            lemma_digits(stages as nat);
            law_digits_are_told_apart(digits, decimal_of(stages as nat), stages as int);
        },
        Status::OpeningConfig(stage) => {
            lemma_digits((stage + 1) as nat);
            law_digits_are_told_apart(digits, decimal_of((stage + 1) as nat), stage + 1);
        },
        Status::Reconfigured { stage, .. } => {
            lemma_digits((stage + 1) as nat);
            law_digits_are_told_apart(digits, decimal_of((stage + 1) as nat), stage + 1);
        },
        Status::Ready { names, .. } => {
            lemma_with_between(names@, " · "@);
        },
        _ => {},
    }
}

/// Whether a text shows a tag: each letter, digit or other printable character as it is, and `?` for
/// any other byte.
pub open spec fn shows(text: Seq<char>, tag: Tag) -> bool {
    &&& text.len() == 4
    &&& forall|i: int|
        0 <= i < 4 ==> (#[trigger] text[i]) == (if 32 <= tag@[i] <= 126 {
            tag@[i] as char
        } else {
            '?'
        })
}

/// What each error says. A mismatch says who speaks what: this side's two versions, and the
/// worker's, by its name.
pub proof fn law_error_texts(
    error: Error,
    s: String,
    mine: (Seq<char>, Seq<char>),
    theirs: (Seq<char>, Seq<char>),
    expected_text: Seq<char>,
    got_text: Seq<char>,
)
    requires
        call_ensures(Error::text, (&error,), s),
        error matches Error::Handshake { transport_version, vocab_version, peer } ==> are_digits_of(
            mine.0,
            transport_version as int,
        ) && are_digits_of(mine.1, vocab_version as int) && are_digits_of(
            theirs.0,
            peer.transport_version as int,
        ) && are_digits_of(theirs.1, peer.vocab_version as int),
        error matches Error::UnexpectedReply { expected, got } ==> shows(expected_text, expected)
            && shows(got_text, got),
    ensures
        match error {
            Error::Remote(message) => s@ == "worker error: "@ + message@,
            Error::UnexpectedReply { .. } => s@ == "expected reply '"@ + expected_text + "', got '"@
                + got_text + "'"@,
            Error::InvalidUtf8 => s@ == "the worker sent text that is not UTF-8"@,
            Error::TooLong => s@ == "a field of the request is too long"@,
            Error::Handshake { peer, .. } => s@ == "version mismatch: this side speaks transport "@
                + mine.0 + ", vocabulary "@ + mine.1 + "; "@ + peer.ident@ + " speaks transport "@
                + theirs.0 + ", vocabulary "@ + theirs.1,
            Error::HandshakeFailed(reason) => s@ == "handshake failed: "@ + reason@,
            Error::WorkerGone => s@ == "the worker is gone"@,
        },
{
    match error {
        Error::Handshake { transport_version, vocab_version, peer } => {
            lemma_digits(transport_version as nat);
            lemma_digits(vocab_version as nat);
            lemma_digits(peer.transport_version as nat);
            lemma_digits(peer.vocab_version as nat);
            law_digits_are_told_apart(
                mine.0,
                decimal_of(transport_version as nat),
                transport_version as int,
            );
            law_digits_are_told_apart(
                mine.1,
                decimal_of(vocab_version as nat),
                vocab_version as int,
            );
            law_digits_are_told_apart(
                theirs.0,
                decimal_of(peer.transport_version as nat),
                peer.transport_version as int,
            );
            law_digits_are_told_apart(
                theirs.1,
                decimal_of(peer.vocab_version as nat),
                peer.vocab_version as int,
            );
        },
        Error::UnexpectedReply { expected, got } => {
            assert(crate::error::tag_text(expected@) =~= expected_text);
            assert(crate::error::tag_text(got@) =~= got_text);
        },
        _ => {},
    }
}

/// What is said of a file that is no WAV file that can be read.
pub proof fn law_wav_error_texts(error: WavError, s: String, digits: Seq<char>)
    requires
        call_ensures(WavError::text, (&error,), s),
        error matches WavError::UnsupportedBits(bits) ==> are_digits_of(digits, bits as int),
    ensures
        error is NotRiffWave ==> s@ == "not RIFF/WAVE"@,
        error is UnsupportedBits ==> s@ == "unsupported "@ + digits + " bit WAV"@,
{
    if let WavError::UnsupportedBits(bits) = error {
        lemma_digits(bits as nat);
        law_digits_are_told_apart(digits, decimal_of(bits as nat), bits as int);
    }
}

} // verus!
