//! Speaking: sending audio to speech-dispatcher.

use vstd::prelude::*;
use vstd::string::*;
use vstd::utf8::*;
use crate::bytes;
use crate::event::AudioFormat;
use crate::speechd;
use crate::speechd::Interrupt;
use crate::text;

verus! {

/// The byte that announces an escaped byte.
pub const ESCAPE: u8 = 125;

/// The newline byte.
pub const NEWLINE: u8 = 10;

/// What an escaped byte is combined with.
pub const ESCAPE_MASK: u8 = 32;

/// A byte as it is sent.
pub open spec fn escaped_byte(byte: u8) -> Seq<u8> {
    if byte == ESCAPE || byte == NEWLINE {
        seq![ESCAPE, byte ^ ESCAPE_MASK]
    } else {
        seq![byte]
    }
}

/// Bytes as they are sent.
pub open spec fn escaped(bytes: Seq<u8>) -> Seq<u8>
    decreases bytes.len(),
{
    if bytes.len() == 0 {
        Seq::empty()
    } else {
        escaped_byte(bytes[0]) + escaped(bytes.drop_first())
    }
}

/// The bytes that were sent as `sent`.
pub open spec fn unescaped(sent: Seq<u8>) -> Seq<u8>
    decreases sent.len(),
{
    if sent.len() == 0 {
        Seq::empty()
    } else if sent[0] == ESCAPE && sent.len() > 1 {
        seq![sent[1] ^ ESCAPE_MASK] + unescaped(sent.skip(2))
    } else {
        seq![sent[0]] + unescaped(sent.drop_first())
    }
}

/// Escaping one more byte.
proof fn lemma_escaped_push(bytes: Seq<u8>, byte: u8)
    ensures
        escaped(bytes.push(byte)) == escaped(bytes) + escaped_byte(byte),
    decreases bytes.len(),
{
    if bytes.len() == 0 {
        assert(bytes.push(byte).drop_first() == Seq::<u8>::empty());
        assert(escaped(Seq::<u8>::empty()) == Seq::<u8>::empty());
        assert(escaped(bytes.push(byte)) == escaped(bytes) + escaped_byte(byte));
    } else {
        lemma_escaped_push(bytes.drop_first(), byte);
        assert(bytes.push(byte).drop_first() == bytes.drop_first().push(byte));
        assert(escaped(bytes.push(byte)) == escaped(bytes) + escaped_byte(byte));
    }
}

/// Escapes PCM bytes for the `705 AUDIO` wire format.
///
/// The audio is terminated by a newline, so a newline byte in it must not
/// appear literally; the escape byte itself needs the same treatment so that
/// decoding is unambiguous.
pub fn hdlc_escape(pcm: &[u8]) -> (r: Vec<u8>)
    ensures
        r@ == escaped(pcm@),
{
    let mut r: Vec<u8> = Vec::new();
    let mut i: usize = 0;
    proof {
        assert(pcm@.take(0) == Seq::<u8>::empty());
    }
    while i < pcm.len()
        invariant
            i <= pcm@.len(),
            r@ == escaped(pcm@.take(i as int)),
        decreases pcm@.len() - i,
    {
        let byte = pcm[i];
        let ghost before = r@;
        if byte == ESCAPE || byte == NEWLINE {
            r.push(ESCAPE);
            r.push(byte ^ ESCAPE_MASK);
        } else {
            r.push(byte);
        }
        proof {
            assert(r@ == before + escaped_byte(byte));
            assert(pcm@.take(i + 1) == pcm@.take(i as int).push(byte));
            lemma_escaped_push(pcm@.take(i as int), byte);
        }
        i = i + 1;
    }
    proof {
        assert(pcm@.take(i as int) == pcm@);
    }
    r
}

/// Escaped bytes can be told from the newline that ends them, and hold all that
/// was escaped.
pub proof fn law_escaped(bytes: Seq<u8>)
    ensures
        unescaped(escaped(bytes)) == bytes,
        !escaped(bytes).contains(NEWLINE),
    decreases bytes.len(),
{
    if bytes.len() > 0 {
        let rest = bytes.drop_first();
        let head = escaped_byte(bytes[0]);
        let all = escaped(bytes);
        law_escaped(rest);
        assert(125u8 ^ 32u8 == 93u8) by (bit_vector);
        assert(10u8 ^ 32u8 == 42u8) by (bit_vector);
        assert(93u8 ^ 32u8 == 125u8) by (bit_vector);
        assert(42u8 ^ 32u8 == 10u8) by (bit_vector);
        if head.len() == 2 {
            assert(all.skip(2) == escaped(rest));
            assert(seq![bytes[0]] + rest == bytes);
        } else {
            assert(all.drop_first() == escaped(rest));
            assert(seq![bytes[0]] + rest == bytes);
        }
        if all.contains(NEWLINE) {
            let k = choose|k: int| 0 <= k < all.len() && all[k] == NEWLINE;
            if k >= head.len() {
                assert(escaped(rest)[k - head.len()] == NEWLINE);
            } else {
                assert(all[k] == head[k]);
            }
        }
    }
}

/// The number of bytes of a sample in all channels.
pub open spec fn sample_size_of(format: AudioFormat) -> int {
    format.channels * format.width
}

/// The number of bytes of a sample in all channels.
pub fn sample_size(format: AudioFormat) -> (r: usize)
    ensures
        r == sample_size_of(format),
        r == format.channels * format.width,
{
    proof {
        assert(format.channels * format.width <= 0xffff * 0xffff) by (nonlinear_arith)
            requires
                format.channels <= 0xffff,
                format.width <= 0xffff,
        ;
    }
    format.channels as usize * format.width as usize
}

/// Maximum PCM bytes carried by a single `705 AUDIO` event -- large enough for
/// efficient transfer, small enough to stay reactive to `STOP`.
pub const MAX_CHUNK: usize = 10000;

/// The lines before the audio of an event.
pub open spec fn audio_header(format: AudioFormat, length: int) -> Seq<char> {
    "705-bits="@ + text::decimal((format.width * 8) as nat) + "\n705-num_channels="@
        + text::decimal(format.channels as nat) + "\n705-sample_rate="@ + text::decimal(
        format.rate as nat,
    ) + "\n705-num_samples="@ + text::decimal((length / sample_size_of(format)) as nat)
        + "\n705-big_endian=0\n705-AUDIO\0"@
}

/// The bytes of an event that carries audio.
pub open spec fn audio_event(format: AudioFormat, pcm: Seq<u8>) -> Seq<u8> {
    encode_utf8(audio_header(format, pcm.len() as int)) + escaped(pcm) + encode_utf8(
        "\n705 AUDIO\n"@,
    )
}

/// Writes one `705 AUDIO` event carrying `pcm` (callers split audio of more than
/// [`MAX_CHUNK`] bytes before calling this).
///
/// The audio is escaped and framed as `705-AUDIO\0{escaped}\n705 AUDIO\n`, after
/// the lines that give its format.
pub fn write_audio_event(output: &mut Vec<u8>, format: AudioFormat, pcm: &[u8])
    requires
        sample_size_of(format) != 0,
    ensures
        final(output)@ == old(output)@ + audio_event(format, pcm@),
{
    let ghost before = output@;
    let size = sample_size(format);
    let num_samples: usize = pcm.len() / size;
    let mut header = String::from_str("705-bits=");
    header.append(text::to_decimal(format.width as u64 * 8).as_str());
    header.append("\n705-num_channels=");
    header.append(text::to_decimal(format.channels as u64).as_str());
    header.append("\n705-sample_rate=");
    header.append(text::to_decimal(format.rate as u64).as_str());
    header.append("\n705-num_samples=");
    header.append(text::to_decimal(num_samples as u64).as_str());
    header.append("\n705-big_endian=0\n705-AUDIO\0");
    proof {
        assert(num_samples == pcm@.len() as int / sample_size_of(format));
        assert(header@ == audio_header(format, pcm@.len() as int));
    }
    bytes::put_bytes(output, header.as_str().as_bytes());
    let sent = hdlc_escape(pcm);
    bytes::put_bytes(output, sent.as_slice());
    bytes::put_bytes(output, "\n705 AUDIO\n".as_bytes());
    proof {
        assert(output@ == before + audio_event(format, pcm@));
    }
}

/// The most bytes of a piece of audio: as many whole samples as fit in
/// [`MAX_CHUNK`], and one sample at least.
pub open spec fn piece_size_of(size: int) -> int {
    let most = (MAX_CHUNK as int / size) * size;
    if most < size {
        size
    } else {
        most
    }
}

/// The most bytes of a piece of audio.
pub fn piece_size(format: AudioFormat) -> (r: usize)
    requires
        sample_size_of(format) != 0,
    ensures
        r == piece_size_of(sample_size_of(format)),
        r > 0,
{
    let size = sample_size(format);
    proof {
        assert((MAX_CHUNK as int / size as int) * size <= MAX_CHUNK) by (nonlinear_arith)
            requires
                size > 0,
        ;
    }
    let most = (MAX_CHUNK / size) * size;
    if most < size {
        size
    } else {
        most
    }
}

/// A piece is made of whole samples and is small enough, unless one sample is
/// too large already.
pub proof fn law_piece_size(size: int)
    requires
        size > 0,
    ensures
        piece_size_of(size) % size == 0,
        piece_size_of(size) > 0,
        size <= MAX_CHUNK ==> piece_size_of(size) <= MAX_CHUNK,
{
    let count = MAX_CHUNK as int / size;
    assert(count * size <= MAX_CHUNK) by (nonlinear_arith)
        requires
            size > 0,
            count == MAX_CHUNK as int / size,
    ;
    assert((count * size) % size == 0) by (nonlinear_arith)
        requires
            size > 0,
    ;
    assert(size % size == 0) by (nonlinear_arith)
        requires
            size > 0,
    ;
}

/// Audio cut into pieces.
pub open spec fn pieces_of(pcm: Seq<u8>, size: int) -> Seq<Seq<u8>>
    decreases pcm.len(),
{
    if pcm.len() == 0 || size <= 0 {
        Seq::empty()
    } else if pcm.len() <= size {
        seq![pcm]
    } else {
        seq![pcm.take(size)] + pieces_of(pcm.skip(size), size)
    }
}

/// The pieces of audio make up the audio, and none is empty or too large.
pub proof fn law_pieces(pcm: Seq<u8>, size: int)
    requires
        size > 0,
    ensures
        pieces_of(pcm, size).flatten() == pcm,
        forall|i: int|
            0 <= i < pieces_of(pcm, size).len() ==> 0 < (#[trigger] pieces_of(pcm, size)[i]).len()
                <= size,
    decreases pcm.len(),
{
    if pcm.len() == 0 {
        assert(pieces_of(pcm, size).flatten() == pcm);
    } else if pcm.len() <= size {
        let pieces = seq![pcm];
        assert(pieces.drop_first() == Seq::<Seq<u8>>::empty());
        assert(pieces.drop_first().flatten() == Seq::<u8>::empty());
        assert(pieces.flatten() == pcm);
    } else {
        let rest = pieces_of(pcm.skip(size), size);
        law_pieces(pcm.skip(size), size);
        let pieces = seq![pcm.take(size)] + rest;
        assert(pieces.drop_first() == rest);
        assert(pieces.flatten() == pcm.take(size) + rest.flatten());
        assert forall|i: int| 0 <= i < pieces.len() implies 0 < (#[trigger] pieces[i]).len()
            <= size by {
            if i > 0 {
                assert(pieces[i] == rest[i - 1]);
            }
        }
    }
}

/// The contents of some pieces of audio.
pub open spec fn pieces_view(pieces: Seq<Vec<u8>>) -> Seq<Seq<u8>> {
    pieces.map_values(|p: Vec<u8>| p@)
}

/// Cuts audio into pieces that each go into one event.
pub fn split_audio(format: AudioFormat, pcm: &[u8]) -> (r: Vec<Vec<u8>>)
    requires
        sample_size_of(format) != 0,
    ensures
        pieces_view(r@) == pieces_of(pcm@, piece_size_of(sample_size_of(format))),
{
    let size = piece_size(format);
    let ghost all = pieces_of(pcm@, size as int);
    let mut r: Vec<Vec<u8>> = Vec::new();
    let mut start: usize = 0;
    proof {
        assert(pcm@.skip(0) == pcm@);
        assert(pieces_view(r@) + all == all);
    }
    while start < pcm.len()
        invariant
            start <= pcm@.len(),
            size > 0,
            all == pieces_of(pcm@, size as int),
            pieces_view(r@) + pieces_of(pcm@.skip(start as int), size as int) == all,
        decreases pcm@.len() - start,
    {
        let ghost rest = pcm@.skip(start as int);
        let end: usize = if pcm.len() - start <= size {
            pcm.len()
        } else {
            start + size
        };
        let mut piece: Vec<u8> = Vec::new();
        let mut i: usize = start;
        while i < end
            invariant
                start <= i <= end <= pcm@.len(),
                piece@ == pcm@.subrange(start as int, i as int),
            decreases end - i,
        {
            piece.push(pcm[i]);
            proof {
                assert(pcm@.subrange(start as int, i + 1) == pcm@.subrange(
                    start as int,
                    i as int,
                ).push(pcm@[i as int]));
            }
            i = i + 1;
        }
        let ghost before = pieces_view(r@);
        let ghost content = piece@;
        r.push(piece);
        proof {
            assert(pieces_view(r@) == before.push(content));
            assert(content == rest.take(end - start));
            assert(rest.skip(end - start) == pcm@.skip(end as int));
            if pcm@.len() - start <= size {
                assert(content == rest);
                assert(pieces_of(pcm@.skip(end as int), size as int) == Seq::<Seq<u8>>::empty());
            }
            assert(pieces_of(rest, size as int) == seq![content] + pieces_of(
                pcm@.skip(end as int),
                size as int,
            ));
            assert(before.push(content) + pieces_of(pcm@.skip(end as int), size as int) == before
                + (seq![content] + pieces_of(pcm@.skip(end as int), size as int)));
        }
        start = end;
    }
    proof {
        assert(pieces_view(r@) == all);
    }
    r
}

/// What has been said of an utterance.
#[derive(Debug, Clone, Copy, PartialEq, Eq, Structural)]
pub struct Utterance {
    /// Whether the reply that speaking begins has been sent.
    pub preamble_sent: bool,
    /// Whether audio came in a format that cannot be sent.
    pub bad_format: bool,
    /// The interrupt that ended the utterance, if one did.
    pub interrupt: Option<Interrupt>,
}

/// An utterance of which nothing has come yet.
pub open spec fn silent() -> Utterance {
    Utterance { preamble_sent: false, bad_format: false, interrupt: None }
}

/// The reply that speaking begins.
pub open spec fn preamble() -> Seq<char> {
    "200 OK SPEAKING\n701 BEGIN\n"@
}

/// The utterance once audio has come, and the reply to send before it; no reply
/// where the audio cannot be sent, or the utterance is over.
pub open spec fn begun(utterance: Utterance, format: AudioFormat) -> (
    Utterance,
    Option<Seq<char>>,
) {
    if utterance.interrupt is Some {
        (utterance, None)
    } else if sample_size_of(format) == 0 {
        (Utterance { bad_format: true, ..utterance }, None)
    } else if utterance.preamble_sent {
        (utterance, Some(Seq::empty()))
    } else {
        (Utterance { preamble_sent: true, ..utterance }, Some(preamble()))
    }
}

/// The utterance after a piece of audio, and the event to send for it, given
/// what polling for an interrupt gave before it. An interrupt ends the
/// utterance, and no event is sent then or later.
pub open spec fn piece_step(
    utterance: Utterance,
    polled: Option<Interrupt>,
    format: AudioFormat,
    piece: Seq<u8>,
) -> (Utterance, Option<Seq<u8>>) {
    if utterance.interrupt is Some {
        (utterance, None)
    } else if polled is Some {
        (Utterance { interrupt: polled, ..utterance }, None)
    } else {
        (utterance, Some(audio_event(format, piece)))
    }
}

/// The bytes of an optional event.
pub open spec fn bytes_of(event: Option<Vec<u8>>) -> Option<Seq<u8>> {
    match event {
        Some(bytes) => Some(bytes@),
        None => None,
    }
}

/// The reply that ends an utterance, given whether synthesis succeeded.
///
/// An interrupt is answered as such. Synthesis that failed before any audio, or
/// whose audio cannot be sent, is an error; once audio has been sent the
/// utterance just ends.
pub open spec fn closing(utterance: Utterance, succeeded: bool) -> Seq<char> {
    match utterance.interrupt {
        Some(interrupt) => interrupt.reply_text(),
        None => if succeeded && utterance.bad_format {
            "301 ERROR CANT SPEAK\n"@
        } else if succeeded && !utterance.preamble_sent {
            preamble() + "702 END\n"@
        } else if succeeded || utterance.preamble_sent {
            "702 END\n"@
        } else {
            "301 ERROR CANT SPEAK\n"@
        },
    }
}

impl Utterance {
    /// Begins an utterance.
    pub fn new() -> (r: Self)
        ensures
            r == silent(),
    {
        Utterance { preamble_sent: false, bad_format: false, interrupt: None }
    }

    /// Takes note of audio in the given format, and gives the reply to send
    /// before it. Without a reply the audio is not to be sent, and no more is
    /// wanted: its format is unusable, or the utterance was interrupted.
    pub fn begin_audio(&mut self, format: AudioFormat) -> (r: Option<String>)
        ensures
            (*final(self), text::opt_text(r)) == begun(*old(self), format),
            r is Some <==> old(self).interrupt is None && format.channels * format.width != 0,
            r matches Some(reply) ==> final(self).preamble_sent && reply@ == (if old(
                self,
            ).preamble_sent {
                Seq::empty()
            } else {
                "200 OK SPEAKING\n701 BEGIN\n"@
            }),
            r is None ==> final(self).preamble_sent == old(self).preamble_sent,
            final(self).bad_format == (old(self).bad_format || (old(self).interrupt is None
                && format.channels * format.width == 0)),
            final(self).interrupt == old(self).interrupt,
    {
        if self.interrupt.is_some() {
            return None;
        }
        if sample_size(format) == 0 {
            self.bad_format = true;
            return None;
        }
        if self.preamble_sent {
            return Some(String::new());
        }
        self.preamble_sent = true;
        Some(String::from_str("200 OK SPEAKING\n701 BEGIN\n"))
    }

    /// Takes a piece of audio and what polling for an interrupt gave before
    /// it, and gives the event to send. Without an event the utterance has been
    /// interrupted: nothing more is to be sent or polled for.
    pub fn piece(&mut self, polled: Option<Interrupt>, format: AudioFormat, piece: &[u8]) -> (r:
        Option<Vec<u8>>)
        requires
            sample_size_of(format) != 0,
        ensures
            old(self).interrupt is Some ==> r is None && *final(self) == *old(self),
            old(self).interrupt is None && polled is Some ==> r is None && *final(self) == (
            Utterance { interrupt: polled, ..*old(self) }),
            old(self).interrupt is None && polled is None ==> *final(self) == *old(self) && (
            r matches Some(event) && event@ == audio_event(format, piece@)),
            (*final(self), bytes_of(r)) == piece_step(*old(self), polled, format, piece@),
    {
        if self.interrupt.is_some() {
            return None;
        }
        if polled.is_some() {
            self.interrupt = polled;
            return None;
        }
        let mut event: Vec<u8> = Vec::new();
        write_audio_event(&mut event, format, piece);
        proof {
            assert(event@ == audio_event(format, piece@));
        }
        Some(event)
    }

    /// Gives the reply that ends the utterance, given whether synthesis
    /// succeeded.
    pub fn finish(&self, succeeded: bool) -> (r: String)
        ensures
            r@ == closing(*self, succeeded),
            self.interrupt matches Some(Interrupt::Stop) ==> r@ == "703 STOP\n"@,
            self.interrupt matches Some(Interrupt::Pause) ==> r@ == "704 PAUSE\n"@,
            self.interrupt is None && succeeded && self.bad_format ==> r@
                == "301 ERROR CANT SPEAK\n"@,
            self.interrupt is None && !succeeded && !self.preamble_sent ==> r@
                == "301 ERROR CANT SPEAK\n"@,
            self.interrupt is None && self.preamble_sent && !(succeeded && self.bad_format) ==> r@
                == "702 END\n"@,
            self.interrupt is None && succeeded && !self.preamble_sent && !self.bad_format ==> r@
                == "200 OK SPEAKING\n701 BEGIN\n"@ + "702 END\n"@,
    {
        if let Some(interrupt) = self.interrupt {
            return String::from_str(interrupt.reply());
        }
        if succeeded && self.bad_format {
            return String::from_str("301 ERROR CANT SPEAK\n");
        }
        if succeeded {
            let mut r = String::new();
            if !self.preamble_sent {
                r.append("200 OK SPEAKING\n701 BEGIN\n");
            }
            r.append("702 END\n");
            proof {
                assert(r@ == closing(*self, succeeded));
            }
            return r;
        }
        if self.preamble_sent {
            return String::from_str("702 END\n");
        }
        String::from_str("301 ERROR CANT SPEAK\n")
    }
}

/// The events that carry some pieces of audio.
pub open spec fn piece_events(format: AudioFormat, pieces: Seq<Seq<u8>>) -> Seq<u8>
    decreases pieces.len(),
{
    if pieces.len() == 0 {
        Seq::empty()
    } else {
        audio_event(format, pieces[0]) + piece_events(format, pieces.drop_first())
    }
}

/// The pieces that some chunks of audio are sent in.
pub open spec fn all_pieces(format: AudioFormat, chunks: Seq<Seq<u8>>) -> Seq<Seq<u8>>
    decreases chunks.len(),
{
    if chunks.len() == 0 {
        Seq::empty()
    } else {
        pieces_of(chunks[0], piece_size_of(sample_size_of(format))) + all_pieces(
            format,
            chunks.drop_first(),
        )
    }
}

/// What polling for an interrupt gives the `i`th time: what `polls` says, and
/// no interrupt after that.
pub open spec fn poll_at(polls: Seq<Option<Interrupt>>, i: int) -> Option<Interrupt> {
    if 0 <= i < polls.len() {
        polls[i]
    } else {
        None
    }
}

/// How far an utterance has come.
#[verifier::ext_equal]
pub struct Progress {
    /// The utterance.
    pub utterance: Utterance,
    /// What has been sent.
    pub sent: Seq<u8>,
    /// How many times an interrupt was polled for.
    pub polled: int,
}

/// How far an utterance comes with some pieces of audio: before each of them an
/// interrupt is polled for, up to the first that comes.
pub open spec fn after_pieces(
    progress: Progress,
    format: AudioFormat,
    pieces: Seq<Seq<u8>>,
    polls: Seq<Option<Interrupt>>,
) -> Progress
    decreases pieces.len(),
{
    if pieces.len() == 0 {
        progress
    } else {
        match piece_step(
            progress.utterance,
            poll_at(polls, progress.polled),
            format,
            pieces[0],
        ) {
            (utterance, Some(event)) => after_pieces(
                Progress {
                    utterance,
                    sent: progress.sent + event,
                    polled: progress.polled + 1,
                },
                format,
                pieces.drop_first(),
                polls,
            ),
            (utterance, None) => Progress { utterance, polled: progress.polled + 1, ..progress },
        }
    }
}

/// How far an utterance comes with some chunks of audio. Once a chunk is not to
/// be sent, no more is.
pub open spec fn after_chunks(
    progress: Progress,
    format: AudioFormat,
    chunks: Seq<Seq<u8>>,
    polls: Seq<Option<Interrupt>>,
) -> Progress
    decreases chunks.len(),
{
    if chunks.len() == 0 {
        progress
    } else {
        match begun(progress.utterance, format) {
            (utterance, Some(reply)) => after_chunks(
                after_pieces(
                    Progress {
                        utterance,
                        sent: progress.sent + encode_utf8(reply),
                        ..progress
                    },
                    format,
                    pieces_of(chunks[0], piece_size_of(sample_size_of(format))),
                    polls,
                ),
                format,
                chunks.drop_first(),
                polls,
            ),
            (utterance, None) => Progress { utterance, ..progress },
        }
    }
}

/// How far an utterance comes, given the chunks of its audio, what polling for
/// an interrupt gives, and whether synthesis succeeds.
pub open spec fn spoken(
    format: AudioFormat,
    chunks: Seq<Seq<u8>>,
    polls: Seq<Option<Interrupt>>,
    succeeded: bool,
) -> Progress {
    let audio = after_chunks(
        Progress { utterance: silent(), sent: Seq::empty(), polled: 0 },
        format,
        chunks,
        polls,
    );
    Progress { sent: audio.sent + encode_utf8(closing(audio.utterance, succeeded)), ..audio }
}

/// An utterance that is not interrupted is bracketed: what speaking begins is
/// sent exactly once before the audio, and the end exactly once after it;
/// synthesis that fails before any audio is answered by an error alone. An
/// interrupt is polled for before every piece of audio.
pub proof fn law_spoken(
    format: AudioFormat,
    chunks: Seq<Seq<u8>>,
    polls: Seq<Option<Interrupt>>,
    succeeded: bool,
)
    requires
        sample_size_of(format) != 0,
        forall|i: int|
            0 <= i < all_pieces(format, chunks).len() ==> (#[trigger] poll_at(polls, i)) is None,
    ensures
        spoken(format, chunks, polls, succeeded).sent == (if chunks.len() == 0 && !succeeded {
            encode_utf8("301 ERROR CANT SPEAK\n"@)
        } else if chunks.len() == 0 {
            encode_utf8(preamble() + "702 END\n"@)
        } else {
            encode_utf8(preamble()) + piece_events(format, all_pieces(format, chunks))
                + encode_utf8("702 END\n"@)
        }),
        spoken(format, chunks, polls, succeeded).polled == all_pieces(format, chunks).len(),
{
    let start = Progress { utterance: silent(), sent: Seq::empty(), polled: 0 };
    lemma_all_chunks(start, format, chunks, polls);
    let end = encode_utf8(closing(after_chunks(start, format, chunks, polls).utterance, succeeded));
    if chunks.len() == 0 {
        assert(start.sent + end == end);
    } else {
        assert(start.sent + encode_utf8(preamble()) == encode_utf8(preamble()));
    }
}

/// An interrupt ends an utterance at once: what speaking begins is sent once,
/// then the pieces of audio before the interrupt, then the reply to it, whether
/// synthesis succeeds or not. After the interrupt nothing is polled for.
pub proof fn law_interrupted(
    format: AudioFormat,
    chunks: Seq<Seq<u8>>,
    polls: Seq<Option<Interrupt>>,
    k: int,
    succeeded: bool,
)
    requires
        sample_size_of(format) != 0,
        0 <= k < all_pieces(format, chunks).len(),
        poll_at(polls, k) is Some,
        forall|i: int| 0 <= i < k ==> (#[trigger] poll_at(polls, i)) is None,
    ensures
        spoken(format, chunks, polls, succeeded).sent == encode_utf8(preamble()) + piece_events(
            format,
            all_pieces(format, chunks).take(k),
        ) + encode_utf8(poll_at(polls, k)->0.reply_text()),
        spoken(format, chunks, polls, succeeded).polled == k + 1,
{
    let start = Progress { utterance: silent(), sent: Seq::empty(), polled: 0 };
    lemma_cut_chunks(start, format, chunks, polls, k);
    assert(start.sent + encode_utf8(preamble()) == encode_utf8(preamble()));
}

/// Audio in a format that cannot be sent is answered by an error alone, and no
/// interrupt is polled for.
pub proof fn law_unsendable(
    format: AudioFormat,
    chunks: Seq<Seq<u8>>,
    polls: Seq<Option<Interrupt>>,
    succeeded: bool,
)
    requires
        sample_size_of(format) == 0,
        chunks.len() > 0,
    ensures
        spoken(format, chunks, polls, succeeded).sent == encode_utf8("301 ERROR CANT SPEAK\n"@),
        spoken(format, chunks, polls, succeeded).polled == 0,
{
    assert(Seq::<u8>::empty() + encode_utf8("301 ERROR CANT SPEAK\n"@) == encode_utf8(
        "301 ERROR CANT SPEAK\n"@,
    ));
}

/// Pieces without an interrupt are all sent.
proof fn lemma_all_pieces(
    progress: Progress,
    format: AudioFormat,
    pieces: Seq<Seq<u8>>,
    polls: Seq<Option<Interrupt>>,
)
    requires
        progress.utterance.interrupt is None,
        forall|i: int|
            progress.polled <= i < progress.polled + pieces.len() ==> (#[trigger] poll_at(polls, i))
                is None,
    ensures
        after_pieces(progress, format, pieces, polls) == (Progress {
            sent: progress.sent + piece_events(format, pieces),
            polled: progress.polled + pieces.len(),
            ..progress
        }),
    decreases pieces.len(),
{
    if pieces.len() == 0 {
        assert(progress.sent + piece_events(format, pieces) == progress.sent);
    } else {
        let event = audio_event(format, pieces[0]);
        let next = Progress {
            sent: progress.sent + event,
            polled: progress.polled + 1,
            ..progress
        };
        assert(poll_at(polls, progress.polled) is None);
        lemma_all_pieces(next, format, pieces.drop_first(), polls);
        let rest = piece_events(format, pieces.drop_first());
        assert(progress.sent + event + rest == progress.sent + (event + rest));
    }
}

/// An interrupt cuts pieces off.
proof fn lemma_cut_pieces(
    progress: Progress,
    format: AudioFormat,
    pieces: Seq<Seq<u8>>,
    polls: Seq<Option<Interrupt>>,
    k: int,
)
    requires
        progress.utterance.interrupt is None,
        0 <= k < pieces.len(),
        poll_at(polls, progress.polled + k) is Some,
        forall|i: int|
            progress.polled <= i < progress.polled + k ==> (#[trigger] poll_at(polls, i)) is None,
    ensures
        after_pieces(progress, format, pieces, polls) == (Progress {
            utterance: Utterance {
                interrupt: poll_at(polls, progress.polled + k),
                ..progress.utterance
            },
            sent: progress.sent + piece_events(format, pieces.take(k)),
            polled: progress.polled + k + 1,
        }),
    decreases pieces.len(),
{
    if k == 0 {
        assert(progress.sent + piece_events(format, pieces.take(0)) == progress.sent);
    } else {
        let event = audio_event(format, pieces[0]);
        let next = Progress {
            sent: progress.sent + event,
            polled: progress.polled + 1,
            ..progress
        };
        assert(poll_at(polls, progress.polled) is None);
        lemma_cut_pieces(next, format, pieces.drop_first(), polls, k - 1);
        assert(pieces.take(k).drop_first() == pieces.drop_first().take(k - 1));
        let rest = piece_events(format, pieces.take(k).drop_first());
        assert(progress.sent + event + rest == progress.sent + (event + rest));
    }
}

/// The events of pieces follow those of the pieces before them.
proof fn lemma_piece_events(format: AudioFormat, a: Seq<Seq<u8>>, b: Seq<Seq<u8>>)
    ensures
        piece_events(format, a + b) == piece_events(format, a) + piece_events(format, b),
    decreases a.len(),
{
    if a.len() == 0 {
        assert(a + b == b);
        assert(piece_events(format, a) + piece_events(format, b) == piece_events(format, b));
    } else {
        lemma_piece_events(format, a.drop_first(), b);
        assert((a + b).drop_first() == a.drop_first() + b);
        assert(piece_events(format, a + b) == piece_events(format, a) + piece_events(format, b));
    }
}

/// The reply to send before the audio of a chunk.
spec fn opening(utterance: Utterance) -> Seq<u8> {
    if utterance.preamble_sent {
        Seq::empty()
    } else {
        encode_utf8(preamble())
    }
}

/// Chunks without an interrupt are all sent.
proof fn lemma_all_chunks(
    progress: Progress,
    format: AudioFormat,
    chunks: Seq<Seq<u8>>,
    polls: Seq<Option<Interrupt>>,
)
    requires
        sample_size_of(format) != 0,
        progress.utterance.interrupt is None,
        forall|i: int|
            progress.polled <= i < progress.polled + all_pieces(format, chunks).len() ==> (
            #[trigger] poll_at(polls, i)) is None,
    ensures
        chunks.len() > 0 ==> after_chunks(progress, format, chunks, polls) == (Progress {
            utterance: Utterance { preamble_sent: true, ..progress.utterance },
            sent: progress.sent + opening(progress.utterance) + piece_events(
                format,
                all_pieces(format, chunks),
            ),
            polled: progress.polled + all_pieces(format, chunks).len(),
        }),
    decreases chunks.len(),
{
    if chunks.len() > 0 {
        let pieces = pieces_of(chunks[0], piece_size_of(sample_size_of(format)));
        let rest = all_pieces(format, chunks.drop_first());
        assert(encode_utf8(Seq::<char>::empty()) == Seq::<u8>::empty());
        let begun = Progress {
            utterance: Utterance { preamble_sent: true, ..progress.utterance },
            sent: progress.sent + opening(progress.utterance),
            ..progress
        };
        lemma_all_pieces(begun, format, pieces, polls);
        let next = after_pieces(begun, format, pieces, polls);
        lemma_all_chunks(next, format, chunks.drop_first(), polls);
        lemma_piece_events(format, pieces, rest);
        assert(next.sent + Seq::<u8>::empty() + piece_events(format, rest) == begun.sent
            + piece_events(format, pieces + rest));
        if chunks.len() == 1 {
            assert(pieces + rest == pieces);
        }
    }
}

/// An interrupt cuts chunks off.
proof fn lemma_cut_chunks(
    progress: Progress,
    format: AudioFormat,
    chunks: Seq<Seq<u8>>,
    polls: Seq<Option<Interrupt>>,
    k: int,
)
    requires
        sample_size_of(format) != 0,
        progress.utterance.interrupt is None,
        0 <= k < all_pieces(format, chunks).len(),
        poll_at(polls, progress.polled + k) is Some,
        forall|i: int|
            progress.polled <= i < progress.polled + k ==> (#[trigger] poll_at(polls, i)) is None,
    ensures
        after_chunks(progress, format, chunks, polls) == (Progress {
            utterance: Utterance {
                preamble_sent: true,
                interrupt: poll_at(polls, progress.polled + k),
                ..progress.utterance
            },
            sent: progress.sent + opening(progress.utterance) + piece_events(
                format,
                all_pieces(format, chunks).take(k),
            ),
            polled: progress.polled + k + 1,
        }),
    decreases chunks.len(),
{
    let pieces = pieces_of(chunks[0], piece_size_of(sample_size_of(format)));
    let rest = all_pieces(format, chunks.drop_first());
    assert(encode_utf8(Seq::<char>::empty()) == Seq::<u8>::empty());
    let begun = Progress {
        utterance: Utterance { preamble_sent: true, ..progress.utterance },
        sent: progress.sent + opening(progress.utterance),
        ..progress
    };
    if k < pieces.len() {
        lemma_cut_pieces(begun, format, pieces, polls, k);
        assert((pieces + rest).take(k) == pieces.take(k));
        assert(after_chunks(
            after_pieces(begun, format, pieces, polls),
            format,
            chunks.drop_first(),
            polls,
        ) == after_pieces(begun, format, pieces, polls));
    } else {
        lemma_all_pieces(begun, format, pieces, polls);
        let next = after_pieces(begun, format, pieces, polls);
        lemma_cut_chunks(next, format, chunks.drop_first(), polls, k - pieces.len());
        let taken = rest.take(k - pieces.len());
        lemma_piece_events(format, pieces, taken);
        assert((pieces + rest).take(k) == pieces + taken);
        assert(next.sent + Seq::<u8>::empty() + piece_events(format, taken) == begun.sent
            + piece_events(format, pieces + taken));
    }
}

/// The interrupt that a line asks for. A line that is not UTF-8 asks for none.
pub open spec fn interrupt_of(line: Seq<u8>) -> Option<Interrupt> {
    if !valid_utf8(line) {
        None
    } else if text::trimmed(decode_utf8(line)) == "STOP"@ {
        Some(Interrupt::Stop)
    } else if text::trimmed(decode_utf8(line)) == "PAUSE"@ {
        Some(Interrupt::Pause)
    } else {
        None
    }
}

/// Reads the interrupt that a line asks for.
pub fn read_interrupt(line: Vec<u8>) -> (r: Option<Interrupt>)
    ensures
        r == interrupt_of(line@),
        r == Some(Interrupt::Stop) <==> valid_utf8(line@) && text::trimmed(decode_utf8(line@))
            == "STOP"@,
        r == Some(Interrupt::Pause) <==> valid_utf8(line@) && text::trimmed(decode_utf8(line@))
            == "PAUSE"@,
{
    proof {
        speechd::lemma_commands_differ();
    }
    match text::from_utf8(line) {
        Ok(s) => {
            let trimmed = text::trim(s.as_str());
            if text::same(trimmed.as_str(), "STOP") {
                Some(Interrupt::Stop)
            } else if text::same(trimmed.as_str(), "PAUSE") {
                Some(Interrupt::Pause)
            } else {
                None
            }
        },
        Err(_) => None,
    }
}

/// What a read of one byte gave.
#[derive(Debug, Clone, Copy, PartialEq, Eq, Structural)]
pub enum ByteRead {
    /// A byte.
    Byte(u8),
    /// The read was interrupted by a signal.
    Again,
    /// The input has ended or failed.
    Ended,
}

/// What to do after a read of one byte.
#[derive(Debug, Clone, Copy, PartialEq, Eq, Structural)]
pub enum PollStep {
    /// Read another byte.
    Read,
    /// Polling is over; this was asked for.
    Done(Option<Interrupt>),
}

/// A poll of the input for a complete `STOP` or `PAUSE` line. No more bytes are
/// read than were pending when it began, so that a line which never ends cannot
/// hold it up.
#[derive(Debug, Clone)]
pub struct InterruptPoll {
    /// The bytes of the line so far.
    pub line: Vec<u8>,
    /// The number of bytes that may still be read.
    pub remaining: u64,
}

impl InterruptPoll {
    /// Begins a poll of an input on which `available` bytes are pending.
    pub fn new(available: u64) -> (r: Self)
        ensures
            r.line@ == Seq::<u8>::empty(),
            r.remaining == available,
    {
        InterruptPoll { line: Vec::new(), remaining: available }
    }

    /// Decides whether to read a byte at all.
    pub fn start(&self) -> (r: PollStep)
        ensures
            r == (if self.remaining == 0 {
                PollStep::Done(None)
            } else {
                PollStep::Read
            }),
    {
        if self.remaining == 0 {
            PollStep::Done(None)
        } else {
            PollStep::Read
        }
    }

    /// Takes what a read gave, and decides whether to read another byte.
    pub fn step(&mut self, read: ByteRead) -> (r: PollStep)
        requires
            old(self).remaining > 0,
        ensures
            match read {
                ByteRead::Byte(byte) => if byte == NEWLINE {
                    r == PollStep::Done(interrupt_of(old(self).line@))
                } else {
                    &&& final(self).line@ == old(self).line@.push(byte)
                    &&& final(self).remaining == old(self).remaining - 1
                    &&& r == (if final(self).remaining == 0 {
                        PollStep::Done(None)
                    } else {
                        PollStep::Read
                    })
                },
                ByteRead::Again => r == PollStep::Read && final(self).line@ == old(self).line@
                    && final(self).remaining == old(self).remaining,
                ByteRead::Ended => r == PollStep::Done(None),
            },
    {
        match read {
            ByteRead::Byte(byte) => {
                if byte == NEWLINE {
                    let mut line: Vec<u8> = Vec::new();
                    line.append(&mut self.line);
                    proof {
                        assert(line@ == old(self).line@);
                    }
                    return PollStep::Done(read_interrupt(line));
                }
                self.line.push(byte);
                self.remaining = self.remaining - 1;
                self.start()
            },
            ByteRead::Again => PollStep::Read,
            ByteRead::Ended => PollStep::Done(None),
        }
    }
}

/// Which bytes are escaped, and as what: the escape byte and the newline, and no
/// others.
pub proof fn law_escaped_bytes(bytes: Seq<u8>, byte: u8)
    ensures
        escaped(Seq::empty()) == Seq::<u8>::empty(),
        escaped(bytes.push(byte)) == escaped(bytes) + (if byte == 125 {
            seq![125u8, 93]
        } else if byte == 10 {
            seq![125u8, 42]
        } else {
            seq![byte]
        }),
{
    lemma_escaped_push(bytes, byte);
    assert(125u8 ^ 32u8 == 93u8) by (bit_vector);
    assert(10u8 ^ 32u8 == 42u8) by (bit_vector);
}

/// The lines before some audio give the bits of a sample, the channels, the rate
/// and the number of samples: `count` samples take `count` times the bytes of one
/// sample in all channels.
pub proof fn law_audio_lines(format: AudioFormat, count: nat, pcm: Seq<u8>)
    requires
        format.channels * format.width > 0,
        pcm.len() == count * (format.channels * format.width),
    ensures
        audio_event(format, pcm) == encode_utf8(
            "705-bits="@ + text::decimal((8 * format.width) as nat) + "\n705-num_channels="@
                + text::decimal(format.channels as nat) + "\n705-sample_rate="@ + text::decimal(
                format.rate as nat,
            ) + "\n705-num_samples="@ + text::decimal(count) + "\n705-big_endian=0\n705-AUDIO\0"@,
        ) + escaped(pcm) + encode_utf8("\n705 AUDIO\n"@),
{
    let size = format.channels * format.width;
    assert((count * size) / size == count as int) by (nonlinear_arith)
        requires
            size > 0,
    ;
}

/// A piece has as many samples as go into 10000 bytes: one more would be too many.
pub proof fn law_piece_largest(size: int)
    requires
        0 < size <= 10000,
    ensures
        piece_size_of(size) <= 10000 < piece_size_of(size) + size,
        piece_size_of(size) % size == 0,
{
    law_piece_size(size);
    let count = MAX_CHUNK as int / size;
    assert(count >= 1 && count * size > 10000 - size) by (nonlinear_arith)
        requires
            0 < size <= 10000,
            count == 10000int / size,
    ;
    assert(count * size >= size) by (nonlinear_arith)
        requires
            count >= 1,
            size > 0,
    ;
}

/// Every piece but the last is of full size.
pub proof fn law_full_pieces(pcm: Seq<u8>, size: int, i: int)
    requires
        size > 0,
        0 <= i < pieces_of(pcm, size).len() - 1,
    ensures
        pieces_of(pcm, size)[i].len() == size,
    decreases pcm.len(),
{
    if pcm.len() > size {
        let rest = pieces_of(pcm.skip(size), size);
        if i > 0 {
            assert(pieces_of(pcm, size)[i] == rest[i - 1]);
            law_full_pieces(pcm.skip(size), size, i - 1);
        }
    }
}

/// The pieces of all the chunks of audio make up the audio, in order.
pub proof fn law_all_pieces(format: AudioFormat, chunks: Seq<Seq<u8>>)
    requires
        format.channels * format.width > 0,
    ensures
        all_pieces(format, chunks).flatten() == chunks.flatten(),
    decreases chunks.len(),
{
    let size = piece_size_of(sample_size_of(format));
    law_piece_size(sample_size_of(format));
    if chunks.len() == 0 {
        assert(all_pieces(format, chunks) == Seq::<Seq<u8>>::empty());
    } else {
        let rest = chunks.drop_first();
        let first = pieces_of(chunks[0], size);
        law_pieces(chunks[0], size);
        law_all_pieces(format, rest);
        lemma_flatten_concat(first, all_pieces(format, rest));
        assert(chunks.flatten() == chunks[0] + rest.flatten());
    }
}

/// Flattening two lists one after the other.
proof fn lemma_flatten_concat(a: Seq<Seq<u8>>, b: Seq<Seq<u8>>)
    ensures
        (a + b).flatten() == a.flatten() + b.flatten(),
    decreases a.len(),
{
    if a.len() == 0 {
        assert(a + b == b);
        assert(a.flatten() + b.flatten() == b.flatten());
    } else {
        lemma_flatten_concat(a.drop_first(), b);
        assert((a + b).drop_first() == a.drop_first() + b);
        assert((a + b)[0] == a[0]);
        assert(a[0] + (a.drop_first().flatten() + b.flatten()) == (a[0] + a.drop_first().flatten())
            + b.flatten());
    }
}

/// Each piece of audio goes into an event of its own, in order.
pub proof fn law_piece_events(format: AudioFormat, pieces: Seq<Seq<u8>>)
    ensures
        piece_events(format, pieces) == pieces.map_values(
            |p: Seq<u8>| audio_event(format, p),
        ).flatten(),
    decreases pieces.len(),
{
    let events = pieces.map_values(|p: Seq<u8>| audio_event(format, p));
    if pieces.len() > 0 {
        law_piece_events(format, pieces.drop_first());
        assert(events.drop_first() == pieces.drop_first().map_values(
            |p: Seq<u8>| audio_event(format, p),
        ));
    }
}

} // verus!
