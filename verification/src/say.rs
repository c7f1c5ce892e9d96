//! The command-line client: what it asks for, and what it writes.

use vstd::prelude::*;
use vstd::string::*;
use vstd::utf8::*;
use crate::bytes;
use crate::client::SynthesizeResponse;
use crate::event;
use crate::event::{AudioFormat, InfoData, SynthesizeData, SynthesizeVoice, VoiceView};
use crate::json;
use crate::json::{Json, JsonView};
use crate::table;
use crate::text;

verus! {

broadcast use {json::lemma_array_view, json::lemma_object_view};

/// Output audio format for synthesized speech.
#[derive(Debug, Clone, Copy, PartialEq, Eq, Structural)]
pub enum OutputFormat {
    /// WAV container.
    Wav,
    /// Bare PCM samples, no header.
    Raw,
}

/// The default server URI: a Unix socket in the runtime directory, if there is
/// one, and else the server's default TCP address.
pub open spec fn default_uri_of(xdg_runtime_dir: Option<Seq<char>>) -> Seq<char> {
    match xdg_runtime_dir {
        Some(dir) => "unix://"@ + dir + "/crane-wyoming/tts.sock"@,
        None => "tcp://127.0.0.1:10200"@,
    }
}

/// Computes the default server URI, given the value of `XDG_RUNTIME_DIR`.
pub fn default_uri(xdg_runtime_dir: Option<&str>) -> (r: String)
    ensures
        xdg_runtime_dir matches Some(dir) ==> r@ == "unix://"@ + dir@ + "/crane-wyoming/tts.sock"@,
        xdg_runtime_dir is None ==> r@ == "tcp://127.0.0.1:10200"@,
        r@ == default_uri_of(
            match xdg_runtime_dir {
                Some(dir) => Some(dir@),
                None => None,
            },
        ),
{
    match xdg_runtime_dir {
        Some(dir) => {
            let mut r = String::from_str("unix://");
            r.append(dir);
            r.append("/crane-wyoming/tts.sock");
            r
        },
        None => String::from_str("tcp://127.0.0.1:10200"),
    }
}

/// Resolves the text to synthesize from what was given on the command line or,
/// where nothing was, on standard input.
///
/// Either is trimmed and rejected if empty, so that `--text ""` and a pipe that
/// holds only white space fail the same way.
pub fn resolve_text(given: &str) -> (r: Result<String, String>)
    ensures
        match r {
            Ok(s) => s@ == text::trimmed(given@) && s@.len() > 0,
            Err(e) => text::trimmed(given@).len() == 0 && e@
                == "no text provided; use --text or pipe text to stdin"@,
        },
{
    let trimmed = text::trim(given);
    if text::chars_of(trimmed.as_str()).len() == 0 {
        return Err(String::from_str("no text provided; use --text or pipe text to stdin"));
    }
    Ok(trimmed)
}

/// The voice specification for a voice name and a language, if one of them is
/// given.
pub open spec fn voice_of(voice: Option<Seq<char>>, language: Option<Seq<char>>) -> Option<
    VoiceView,
> {
    if voice is Some || language is Some {
        Some(VoiceView { name: voice, language, speaker: None })
    } else {
        None
    }
}

/// Builds the request for a text, a voice name and a language.
pub fn synthesize_request(text: &str, voice: Option<String>, language: Option<String>) -> (r:
    SynthesizeData)
    ensures
        r.text@ == text@,
        r.voice is None <==> voice is None && language is None,
        r.voice matches Some(v) ==> v.name == voice && v.language == language && v.speaker is None,
        event::opt_voice(r.voice) == voice_of(text::opt_text(voice), text::opt_text(language)),
{
    let data = SynthesizeData::new(text);
    if voice.is_some() || language.is_some() {
        let mut synth_voice = SynthesizeVoice::new();
        synth_voice.name = voice;
        synth_voice.language = language;
        return data.with_voice(synth_voice);
    }
    data
}

/// Decides which file to write to; none for standard output, which `-` stands
/// for.
pub fn output_file(output: Option<String>) -> (r: Option<String>)
    ensures
        text::opt_text(r) == (if text::opt_text(output) == Some("-"@) {
            None
        } else {
            text::opt_text(output)
        }),
{
    match output {
        Some(path) => if text::same(path.as_str(), "-") {
            None
        } else {
            Some(path)
        },
        None => None,
    }
}

/// The `count` low bytes of a number, the lowest first.
pub open spec fn le_bytes(n: int, count: nat) -> Seq<u8>
    decreases count,
{
    if count == 0 {
        Seq::empty()
    } else {
        seq![(n % 256) as u8] + le_bytes(n / 256, (count - 1) as nat)
    }
}

/// A product, or the largest value where it is larger.
pub open spec fn capped_product(a: int, b: int, max: int) -> int {
    if a * b > max {
        max
    } else {
        a * b
    }
}

/// The bytes of a WAV header, given the format of the audio and its size. The
/// size of audio that is streamed is not known; it is given as the largest
/// value, which readers take to mean "until the end".
pub open spec fn wav_header(format: AudioFormat, data_size: Option<u32>) -> Seq<u8> {
    let byte_rate = capped_product(
        capped_product(format.rate as int, format.channels as int, u32::MAX as int),
        format.width as int,
        u32::MAX as int,
    );
    let block_align = capped_product(
        format.channels as int,
        format.width as int,
        u16::MAX as int,
    );
    let riff_size = match data_size {
        Some(n) => n + 36,
        None => u32::MAX as int,
    };
    let data_chunk_size = match data_size {
        Some(n) => n as int,
        None => u32::MAX as int,
    };
    seq![82u8, 73u8, 70u8, 70u8] + le_bytes(riff_size, 4) + seq![87u8, 65u8, 86u8, 69u8] + seq![
        102u8,
        109u8,
        116u8,
        32u8,
    ] + le_bytes(16, 4) + le_bytes(1, 2) + le_bytes(format.channels as int, 2) + le_bytes(
        format.rate as int,
        4,
    ) + le_bytes(byte_rate, 4) + le_bytes(block_align, 2) + le_bytes(format.width * 8, 2) + seq![
        100u8,
        97u8,
        116u8,
        97u8,
    ] + le_bytes(data_chunk_size, 4)
}

/// Whether the format and the size can be written in a WAV header: the bits of
/// a sample are counted by 16 bits, and the size of the whole by 32.
pub open spec fn fits_wav(format: AudioFormat, data_size: Option<u32>) -> bool {
    format.width * 8 <= u16::MAX && (data_size matches Some(n) ==> n + 36 <= u32::MAX)
}

/// Appends a 16-bit number.
fn put_u16(out: &mut Vec<u8>, n: u16)
    ensures
        final(out)@ == old(out)@ + le_bytes(n as int, 2),
{
    let ghost before = out@;
    out.push((n % 256) as u8);
    out.push((n / 256) as u8);
    proof {
        reveal_with_fuel(le_bytes, 3);
        assert(((n / 256) as int) % 256 == n / 256);
        assert(out@ == before + le_bytes(n as int, 2));
    }
}

/// Appends a 32-bit number.
fn put_u32(out: &mut Vec<u8>, n: u32)
    ensures
        final(out)@ == old(out)@ + le_bytes(n as int, 4),
{
    let ghost before = out@;
    out.push((n % 256) as u8);
    out.push((n / 256 % 256) as u8);
    out.push((n / 65536 % 256) as u8);
    out.push((n / 16777216) as u8);
    proof {
        reveal_with_fuel(le_bytes, 5);
        assert(n as int / 256 / 256 == n / 65536);
        assert(n as int / 256 / 256 / 256 == n / 16777216);
        assert(((n / 16777216) as int) % 256 == n / 16777216);
        assert(out@ == before + le_bytes(n as int, 4));
    }
}

/// Appends four bytes.
fn put_tag(out: &mut Vec<u8>, a: u8, b: u8, c: u8, d: u8)
    ensures
        final(out)@ == old(out)@ + seq![a, b, c, d],
{
    let ghost before = out@;
    out.push(a);
    out.push(b);
    out.push(c);
    out.push(d);
    proof {
        assert(out@ == before + seq![a, b, c, d]);
    }
}

/// Multiplies, or gives the largest value where the product is larger.
fn product_u32(a: u32, b: u16) -> (r: u32)
    ensures
        r == capped_product(a as int, b as int, u32::MAX as int),
{
    proof {
        assert(a * b <= 0xffff_ffff * 0xffff) by (nonlinear_arith)
            requires
                a <= 0xffff_ffff,
                b <= 0xffff,
        ;
    }
    let product: u64 = a as u64 * b as u64;
    if product > u32::MAX as u64 {
        u32::MAX
    } else {
        product as u32
    }
}

/// Multiplies, or gives the largest value where the product is larger.
fn product_u16(a: u16, b: u16) -> (r: u16)
    ensures
        r == capped_product(a as int, b as int, u16::MAX as int),
{
    proof {
        assert(a * b <= 0xffff * 0xffff) by (nonlinear_arith)
            requires
                a <= 0xffff,
                b <= 0xffff,
        ;
    }
    let product: u32 = a as u32 * b as u32;
    if product > u16::MAX as u32 {
        u16::MAX
    } else {
        product as u16
    }
}

/// Writes a canonical 44-byte WAV header.
///
/// `data_size` is the number of PCM audio bytes that follow. When `None`,
/// writes `0xFFFF_FFFF` placeholders for the RIFF and data chunk sizes -- the
/// conventional "read until EOF" marker for streaming WAV to a pipe that isn't
/// seekable enough to patch in the real size afterward.
pub fn write_wav_header(writer: &mut Vec<u8>, format: AudioFormat, data_size: Option<u32>)
    requires
        fits_wav(format, data_size),
    ensures
        final(writer)@ == old(writer)@ + wav_header(format, data_size),
{
    let ghost before = writer@;
    let byte_rate = product_u32(product_u32(format.rate, format.channels), format.width);
    let block_align = product_u16(format.channels, format.width);
    let bits_per_sample: u16 = format.width * 8;
    let (riff_size, data_chunk_size): (u32, u32) = match data_size {
        Some(n) => (n + 36, n),
        None => (0xFFFF_FFFF, 0xFFFF_FFFF),
    };
    put_tag(writer, 82, 73, 70, 70);
    put_u32(writer, riff_size);
    put_tag(writer, 87, 65, 86, 69);
    put_tag(writer, 102, 109, 116, 32);
    put_u32(writer, 16);
    put_u16(writer, 1);
    put_u16(writer, format.channels);
    put_u32(writer, format.rate);
    put_u32(writer, byte_rate);
    put_u16(writer, block_align);
    put_u16(writer, bits_per_sample);
    put_tag(writer, 100, 97, 116, 97);
    put_u32(writer, data_chunk_size);
    proof {
        assert(writer@ == before + wav_header(format, data_size));
    }
}

/// A WAV header takes 44 bytes.
pub proof fn law_wav_header_length(format: AudioFormat, data_size: Option<u32>)
    ensures
        wav_header(format, data_size).len() == 44,
{
    reveal_with_fuel(le_bytes, 5);
}

/// The little-endian number in the two bytes at a position.
pub open spec fn u16_at(bytes: Seq<u8>, at: int) -> int {
    bytes[at] + 256 * bytes[at + 1]
}

/// The little-endian number in the four bytes at a position.
pub open spec fn u32_at(bytes: Seq<u8>, at: int) -> int {
    bytes[at] + 256 * bytes[at + 1] + 65536 * bytes[at + 2] + 16777216 * bytes[at + 3]
}

/// Two bytes of a number, and four, tell the number.
proof fn lemma_le_bytes(n: int)
    requires
        0 <= n,
    ensures
        le_bytes(n, 2).len() == 2,
        le_bytes(n, 4).len() == 4,
        n <= 0xffff ==> u16_at(le_bytes(n, 2), 0) == n,
        n <= 0xffff_ffff ==> u32_at(le_bytes(n, 4), 0) == n,
{
    reveal_with_fuel(le_bytes, 5);
    let a = n / 256;
    let b = a / 256;
    let c = b / 256;
    assert(n == n % 256 + 256 * a);
    assert(a == a % 256 + 256 * b);
    assert(b == b % 256 + 256 * c);
    assert(n <= 0xffff ==> a <= 0xff);
    assert(n <= 0xffff_ffff ==> c <= 0xff);
}

/// The numbers in a WAV header, each read at its place: the sizes of the file
/// after them and of the audio, the format of the samples, and what follows from
/// it. A frame is one sample of each channel; the bytes of a frame and of a second
/// are the largest number where they are more.
pub proof fn law_wav_header_numbers(format: AudioFormat, data_size: Option<u32>)
    requires
        fits_wav(format, data_size),
    ensures
        ({
            let header = wav_header(format, data_size);
            &&& header.subrange(0, 4) == seq![82u8, 73, 70, 70]
            &&& header.subrange(8, 16) == seq![87u8, 65, 86, 69, 102, 109, 116, 32]
            &&& header.subrange(36, 40) == seq![100u8, 97, 116, 97]
            &&& data_size matches Some(n) ==> u32_at(header, 40) == n && u32_at(header, 4) == 36 + n
            &&& data_size is None ==> u32_at(header, 40) == 0xffff_ffff && u32_at(header, 4)
                == 0xffff_ffff
            &&& u32_at(header, 16) == 16
            &&& u16_at(header, 20) == 1
            &&& u16_at(header, 22) == format.channels
            &&& u32_at(header, 24) == format.rate
            &&& u16_at(header, 34) == 8 * format.width
            &&& u16_at(header, 32) == (if format.channels * format.width <= 0xffff {
                format.channels * format.width
            } else {
                0xffff
            })
            &&& u32_at(header, 28) == (if format.rate * (format.channels * format.width)
                <= 0xffff_ffff {
                format.rate * (format.channels * format.width)
            } else {
                0xffff_ffff
            })
        }),
{
    let header = wav_header(format, data_size);
    let rate = format.rate as int;
    let channels = format.channels as int;
    let width = format.width as int;
    let max = u32::MAX as int;
    let per_channel = capped_product(rate, channels, max);
    let byte_rate = capped_product(per_channel, width, max);
    let block_align = capped_product(channels, width, u16::MAX as int);
    assert(rate * channels >= 0 && channels * width >= 0 && per_channel * width >= 0 && rate * (
    channels * width) >= 0) by (nonlinear_arith)
        requires
            rate >= 0,
            channels >= 0,
            width >= 0,
            per_channel >= 0,
    ;
    assert(byte_rate == (if rate * (channels * width) <= max {
        rate * (channels * width)
    } else {
        max
    })) by {
        assert((rate * channels) * width == rate * (channels * width)) by (nonlinear_arith);
        if rate * channels > max {
            if width == 0 {
                assert(max * width == 0 && (rate * channels) * width == 0) by (nonlinear_arith)
                    requires
                        width == 0,
                ;
            } else {
                assert(max * width >= max && (rate * channels) * width > max) by (nonlinear_arith)
                    requires
                        width >= 1,
                        rate * channels > max,
                        max > 0,
                ;
            }
        }
    }
    let riff_size = match data_size {
        Some(n) => n + 36,
        None => u32::MAX as int,
    };
    let data_chunk_size = match data_size {
        Some(n) => n as int,
        None => u32::MAX as int,
    };
    lemma_le_bytes(riff_size);
    lemma_le_bytes(16);
    lemma_le_bytes(1);
    lemma_le_bytes(channels);
    lemma_le_bytes(rate);
    lemma_le_bytes(byte_rate);
    lemma_le_bytes(block_align);
    lemma_le_bytes(width * 8);
    lemma_le_bytes(data_chunk_size);
    assert(header.subrange(0, 4) =~= seq![82u8, 73, 70, 70]);
    assert(header.subrange(4, 8) =~= le_bytes(riff_size, 4));
    assert(header.subrange(8, 16) =~= seq![87u8, 65, 86, 69, 102, 109, 116, 32]);
    assert(header.subrange(16, 20) =~= le_bytes(16, 4));
    assert(header.subrange(20, 22) =~= le_bytes(1, 2));
    assert(header.subrange(22, 24) =~= le_bytes(channels, 2));
    assert(header.subrange(24, 28) =~= le_bytes(rate, 4));
    assert(header.subrange(28, 32) =~= le_bytes(byte_rate, 4));
    assert(header.subrange(32, 34) =~= le_bytes(block_align, 2));
    assert(header.subrange(34, 36) =~= le_bytes(width * 8, 2));
    assert(header.subrange(36, 40) =~= seq![100u8, 97, 116, 97]);
    assert(header.subrange(40, 44) =~= le_bytes(data_chunk_size, 4));
    lemma_read_at(header, 4, 4);
    lemma_read_at(header, 16, 4);
    lemma_read_at(header, 20, 2);
    lemma_read_at(header, 22, 2);
    lemma_read_at(header, 24, 4);
    lemma_read_at(header, 28, 4);
    lemma_read_at(header, 32, 2);
    lemma_read_at(header, 34, 2);
    lemma_read_at(header, 40, 4);
}

/// A number read at a position is the one at the start of the bytes there.
proof fn lemma_read_at(bytes: Seq<u8>, at: int, count: int)
    requires
        0 <= at,
        at + count <= bytes.len(),
    ensures
        count >= 2 ==> u16_at(bytes, at) == u16_at(bytes.subrange(at, at + count), 0),
        count >= 4 ==> u32_at(bytes, at) == u32_at(bytes.subrange(at, at + count), 0),
{
}

/// Builds the content of the file for a response.
///
/// The size of the audio must fit in the header, else there is no such WAV
/// file.
pub fn response_file(response: &SynthesizeResponse, format: OutputFormat) -> (r: Result<
    Vec<u8>,
    String,
>)
    requires
        format is Wav && response.audio@.len() <= u32::MAX ==> fits_wav(
            response.format,
            Some(response.audio@.len() as u32),
        ),
    ensures
        match r {
            Ok(bytes) => match format {
                OutputFormat::Raw => bytes@ == response.audio@,
                OutputFormat::Wav => response.audio@.len() <= u32::MAX && bytes@ == wav_header(
                    response.format,
                    Some(response.audio@.len() as u32),
                ) + response.audio@,
            },
            Err(e) => format is Wav && response.audio@.len() > u32::MAX && e@
                == "audio too large to fit in a WAV file"@,
        },
{
    let mut out: Vec<u8> = Vec::new();
    if format == OutputFormat::Wav {
        let len = response.audio.len();
        if len as u64 > u32::MAX as u64 {
            return Err(String::from_str("audio too large to fit in a WAV file"));
        }
        write_wav_header(&mut out, response.format, Some(len as u32));
    }
    let ghost head = out@;
    bytes::put_bytes(&mut out, response.audio.as_slice());
    proof {
        assert(format is Raw ==> head + response.audio@ == response.audio@);
    }
    Ok(out)
}

/// What has been written to standard output.
#[derive(Debug, Clone, Copy, PartialEq, Eq, Structural)]
pub struct StdoutWriter {
    /// The format asked for.
    pub format: OutputFormat,
    /// Whether a WAV header has been written.
    pub header_written: bool,
}

/// What is written for a chunk of audio: the first one comes after a header.
pub open spec fn chunk_output(writer: StdoutWriter, format: AudioFormat, chunk: Seq<u8>) -> Seq<u8> {
    if writer.format is Wav && !writer.header_written {
        wav_header(format, None) + chunk
    } else {
        chunk
    }
}

/// What is written when there is no more audio: where none came, a header for
/// none.
pub open spec fn end_output(writer: StdoutWriter, format: AudioFormat) -> Seq<u8> {
    if writer.format is Wav && !writer.header_written {
        wav_header(format, Some(0))
    } else {
        Seq::empty()
    }
}

/// The state after a chunk of audio.
pub open spec fn after_chunk(writer: StdoutWriter) -> StdoutWriter {
    StdoutWriter { header_written: writer.header_written || writer.format is Wav, ..writer }
}

impl StdoutWriter {
    /// Begins the output.
    pub fn new(format: OutputFormat) -> (r: Self)
        ensures
            r == (StdoutWriter { format, header_written: false }),
    {
        StdoutWriter { format, header_written: false }
    }

    /// Tells whether a WAV header is still to be written.
    pub fn needs_header(&self) -> (r: bool)
        ensures
            r == (self.format is Wav && !self.header_written),
    {
        !self.header_written && self.format == OutputFormat::Wav
    }

    /// Gives what to write for a chunk of audio.
    pub fn chunk(&mut self, format: AudioFormat, chunk: &[u8]) -> (r: Vec<u8>)
        requires
            old(self).format is Wav && !old(self).header_written ==> fits_wav(format, None),
        ensures
            r@ == chunk_output(*old(self), format, chunk@),
            *final(self) == after_chunk(*old(self)),
    {
        let mut out: Vec<u8> = Vec::new();
        if self.needs_header() {
            write_wav_header(&mut out, format, None);
            self.header_written = true;
        }
        let ghost head = out@;
        bytes::put_bytes(&mut out, chunk);
        proof {
            assert(Seq::<u8>::empty() + chunk@ == chunk@);
            assert(Seq::<u8>::empty() + wav_header(format, None) == wav_header(format, None));
        }
        out
    }

    /// Gives what to write when there is no more audio.
    pub fn end(&self, format: AudioFormat) -> (r: Vec<u8>)
        requires
            self.format is Wav && !self.header_written ==> fits_wav(format, Some(0)),
        ensures
            r@ == end_output(*self, format),
    {
        let mut out: Vec<u8> = Vec::new();
        if self.needs_header() {
            write_wav_header(&mut out, format, Some(0));
            proof {
                assert(Seq::<u8>::empty() + wav_header(format, Some(0)) == wav_header(
                    format,
                    Some(0),
                ));
            }
        }
        out
    }
}

/// All that is written to standard output for some chunks of audio.
pub open spec fn stdout_bytes(writer: StdoutWriter, format: AudioFormat, chunks: Seq<Seq<u8>>) -> Seq<
    u8,
>
    decreases chunks.len(),
{
    if chunks.len() == 0 {
        end_output(writer, format)
    } else {
        chunk_output(writer, format, chunks[0]) + stdout_bytes(
            after_chunk(writer),
            format,
            chunks.drop_first(),
        )
    }
}

/// What is written to standard output is the audio in order, after exactly one
/// header if a WAV file was asked for.
pub proof fn law_stdout_bytes(output: OutputFormat, format: AudioFormat, chunks: Seq<Seq<u8>>)
    ensures
        stdout_bytes(
            StdoutWriter { format: output, header_written: false },
            format,
            chunks,
        ) == (match output {
            OutputFormat::Raw => chunks.flatten(),
            OutputFormat::Wav => wav_header(
                format,
                if chunks.len() == 0 {
                    Some(0)
                } else {
                    None
                },
            ) + chunks.flatten(),
        }),
{
    let writer = StdoutWriter { format: output, header_written: false };
    if chunks.len() == 0 {
        assert(chunks.flatten() == Seq::<u8>::empty());
        assert(wav_header(format, Some(0)) + chunks.flatten() == wav_header(format, Some(0)));
    } else {
        let rest = chunks.drop_first();
        lemma_stdout_rest(after_chunk(writer), format, rest);
        assert(chunks.flatten() == chunks[0] + rest.flatten());
        assert(wav_header(format, None) + chunks[0] + rest.flatten() == wav_header(format, None) + (
        chunks[0] + rest.flatten()));
    }
}

/// Once no header is due, only audio is written.
proof fn lemma_stdout_rest(writer: StdoutWriter, format: AudioFormat, chunks: Seq<Seq<u8>>)
    requires
        writer.format is Wav ==> writer.header_written,
    ensures
        stdout_bytes(writer, format, chunks) == chunks.flatten(),
    decreases chunks.len(),
{
    if chunks.len() == 0 {
        assert(chunks.flatten() == Seq::<u8>::empty());
    } else {
        lemma_stdout_rest(after_chunk(writer), format, chunks.drop_first());
        assert(chunks.flatten() == chunks[0] + chunks.drop_first().flatten());
    }
}

/// A member of an object.
pub open spec fn get(value: JsonView, name: Seq<char>) -> Option<JsonView> {
    match value {
        JsonView::Object(fields) => json::member(fields, name),
        _ => None,
    }
}

/// The name of a program or a voice.
pub open spec fn name_of(value: JsonView) -> Seq<char> {
    match get(value, "name"@) {
        Some(JsonView::Text(name)) => name,
        _ => "<unnamed>"@,
    }
}

/// The voices of a program.
pub open spec fn voices_of(program: JsonView) -> Seq<JsonView> {
    match get(program, "voices"@) {
        Some(JsonView::Array(voices)) => voices,
        _ => Seq::empty(),
    }
}

/// The voices of all programs, each with its program's name.
pub open spec fn listed_voices(programs: Seq<JsonView>) -> Seq<(Seq<char>, JsonView)>
    decreases programs.len(),
{
    if programs.len() == 0 {
        Seq::empty()
    } else {
        let program = programs.last();
        listed_voices(programs.drop_last()) + voices_of(program).map_values(
            |v: JsonView| (name_of(program), v),
        )
    }
}

/// Looks up a member of an object.
pub fn get_member<'a>(value: &'a Json, name: &str) -> (r: Option<&'a Json>)
    ensures
        match r {
            Some(v) => get(value@, name@) == Some(v@),
            None => get(value@, name@) is None,
        },
{
    match value {
        Json::Object(fields) => json::find(fields, name),
        _ => None,
    }
}

/// Gives the name of a program or a voice.
fn read_name(value: &Json) -> (r: String)
    ensures
        r@ == name_of(value@),
{
    match get_member(value, "name") {
        Some(Json::Text(name)) => name.clone(),
        _ => String::from_str("<unnamed>"),
    }
}

/// The contents of a list of voices with their programs' names.
pub open spec fn pairs_view(pairs: Seq<(String, &Json)>) -> Seq<(Seq<char>, JsonView)> {
    pairs.map_values(|p: (String, &Json)| (p.0@, p.1@))
}

/// Gives the voices of all programs in `info`, each with its program's name.
pub fn iter_voices(info: &InfoData) -> (r: Vec<(String, &Json)>)
    ensures
        pairs_view(r@) == listed_voices(json::items_view(info.tts@)),
{
    let ghost programs = json::items_view(info.tts@);
    let mut r: Vec<(String, &Json)> = Vec::new();
    let mut i: usize = 0;
    proof {
        assert(pairs_view(r@) == listed_voices(programs.take(0)));
    }
    while i < info.tts.len()
        invariant
            i <= info.tts@.len(),
            programs == json::items_view(info.tts@),
            pairs_view(r@) == listed_voices(programs.take(i as int)),
        decreases info.tts@.len() - i,
    {
        let program = &info.tts[i];
        let ghost before = pairs_view(r@);
        let ghost pair = |v: JsonView| (name_of(program@), v);
        proof {
            assert(programs.take(i + 1).drop_last() == programs.take(i as int));
            assert(programs.take(i + 1).last() == program@);
        }
        if let Some(Json::Array(voices)) = get_member(program, "voices") {
            let ghost views = json::items_view(voices@);
            let mut k: usize = 0;
            proof {
                assert(before + views.take(0).map_values(pair) == before);
            }
            while k < voices.len()
                invariant
                    k <= voices@.len(),
                    views == json::items_view(voices@),
                    pair == (|v: JsonView| (name_of(program@), v)),
                    pairs_view(r@) == before + views.take(k as int).map_values(pair),
                decreases voices@.len() - k,
            {
                let ghost listed = pairs_view(r@);
                let name = read_name(program);
                let ghost shown = name@;
                r.push((name, &voices[k]));
                proof {
                    assert(pairs_view(r@) == listed.push((shown, views[k as int])));
                    assert(views.take(k + 1).map_values(pair) == views.take(k as int).map_values(
                        pair,
                    ).push((shown, views[k as int])));
                }
                k = k + 1;
            }
            proof {
                assert(views.take(k as int) == views);
            }
        } else {
            proof {
                assert(voices_of(program@).map_values(pair) == Seq::<
                    (Seq<char>, JsonView),
                >::empty());
            }
        }
        i = i + 1;
    }
    proof {
        assert(programs.take(i as int) == programs);
    }
    r
}

/// The languages of a voice, as they are shown.
pub open spec fn languages_shown(voice: JsonView) -> Seq<char> {
    decode_utf8(
        json::json_text(
            match get(voice, "languages"@) {
                Some(languages) => languages,
                None => JsonView::Null,
            },
        ),
    )
}

/// The line for a voice.
pub open spec fn voice_line(program: Seq<char>, voice: JsonView) -> Seq<char> {
    "  - "@ + name_of(voice) + " ("@ + program + ", "@ + languages_shown(voice) + ")\n"@
}

/// The lines for some voices.
pub open spec fn voice_lines(voices: Seq<(Seq<char>, JsonView)>) -> Seq<char>
    decreases voices.len(),
{
    if voices.len() == 0 {
        "Available voices:\n"@
    } else {
        voice_lines(voices.drop_last()) + voice_line(voices.last().0, voices.last().1)
    }
}

/// Gives the languages of a voice, as they are shown.
fn show_languages(voice: &Json) -> (r: String)
    ensures
        r@ == languages_shown(voice@),
{
    let languages = match get_member(voice, "languages") {
        Some(languages) => languages.clone(),
        None => Json::Null,
    };
    match json::serialize(&languages) {
        Ok(bytes) => match text::from_utf8(bytes) {
            Ok(s) => s,
            Err(_) => String::new(),
        },
        Err(_) => String::new(),
    }
}

/// Writes the listing of the available voices (name, program, languages).
pub fn print_voices(info: &InfoData) -> (r: String)
    ensures
        r@ == voice_lines(listed_voices(json::items_view(info.tts@))),
{
    let voices = iter_voices(info);
    let ghost views = pairs_view(voices@);
    let mut r = String::from_str("Available voices:\n");
    let mut i: usize = 0;
    while i < voices.len()
        invariant
            i <= voices@.len(),
            views == pairs_view(voices@),
            r@ == voice_lines(views.take(i as int)),
        decreases voices@.len() - i,
    {
        let entry = &voices[i];
        proof {
            assert(views.take(i + 1).drop_last() == views.take(i as int));
            assert(views.take(i + 1).last() == views[i as int]);
        }
        let ghost before = r@;
        r.append("  - ");
        r.append(read_name(entry.1).as_str());
        r.append(" (");
        r.append(entry.0.as_str());
        r.append(", ");
        r.append(show_languages(entry.1).as_str());
        r.append(")\n");
        proof {
            assert(r@ == before + voice_line(entry.0@, entry.1@));
        }
        i = i + 1;
    }
    proof {
        assert(views.take(i as int) == views);
    }
    r
}

/// The languages of a voice that are texts.
pub open spec fn text_languages(items: Seq<JsonView>) -> Seq<Seq<char>>
    decreases items.len(),
{
    if items.len() == 0 {
        Seq::empty()
    } else {
        match items.last() {
            JsonView::Text(language) => text_languages(items.drop_last()).push(language),
            _ => text_languages(items.drop_last()),
        }
    }
}

/// The languages of a voice.
pub open spec fn languages_of(voice: JsonView) -> Seq<Seq<char>> {
    match get(voice, "languages"@) {
        Some(JsonView::Array(items)) => text_languages(items),
        _ => Seq::empty(),
    }
}

/// The languages of some voices, as often as they occur.
pub open spec fn all_languages(voices: Seq<(Seq<char>, JsonView)>) -> Seq<Seq<char>>
    decreases voices.len(),
{
    if voices.len() == 0 {
        Seq::empty()
    } else {
        all_languages(voices.drop_last()) + languages_of(voices.last().1)
    }
}

/// The texts of a list in order, each once.
pub open spec fn text_set(list: Seq<Seq<char>>) -> Seq<(Seq<char>, ())>
    decreases list.len(),
{
    if list.len() == 0 {
        Seq::empty()
    } else {
        let before = text_set(list.drop_last());
        if table::lookup(before, list.last()) is Some {
            before
        } else {
            table::inserted(before, list.last(), ())
        }
    }
}

/// [`text_set`] gives exactly the texts of a list, in order and each once.
pub proof fn law_text_set(list: Seq<Seq<char>>)
    ensures
        table::is_ordered(text_set(list)),
        table::distinct(text_set(list)),
        forall|t: Seq<char>| #[trigger]
            table::lookup(text_set(list), t) is Some == list.contains(t),
    decreases list.len(),
{
    if list.len() == 0 {
        assert forall|t: Seq<char>| #[trigger]
            table::lookup(text_set(list), t) is Some == list.contains(t) by {
            table::lemma_index(text_set(list), t);
        }
    } else {
        let rest = list.drop_last();
        let last = list.last();
        let before = text_set(rest);
        let after = text_set(list);
        law_text_set(rest);
        assert(list == rest.push(last));
        text::lemma_contains_push(rest, last);
        if table::lookup(before, last) is None {
            table::lemma_inserted_ordered(before, last, ());
            table::lemma_rank(before, last);
            let p = table::rank(before, last);
            table::lemma_index(before, last);
            assert forall|i: int, j: int| 0 <= i < j < after.len() implies after[i].0
                != after[j].0 by {
                let a = if i < p {
                    i
                } else {
                    i - 1
                };
                let b = if j < p {
                    j
                } else {
                    j - 1
                };
                if i != p {
                    assert(after[i] == before[a]);
                }
                if j != p {
                    assert(after[j] == before[b]);
                }
            }
            assert forall|t: Seq<char>| #[trigger]
                table::lookup(after, t) is Some == list.contains(t) by {
                table::lemma_index(before, t);
                table::lemma_index(after, t);
                let q = table::index_in(before, t);
                let r = table::index_in(after, t);
                assert(after[p].0 == last);
                if q < before.len() {
                    let moved = if q < p {
                        q
                    } else {
                        q + 1
                    };
                    assert(after[moved] == before[q]);
                }
                if r < after.len() && r != p {
                    let back = if r < p {
                        r
                    } else {
                        r - 1
                    };
                    assert(after[r] == before[back]);
                    assert(q < before.len());
                }
                assert(table::lookup(before, t) is Some == rest.contains(t));
                assert(rest.push(last).contains(t) == (rest.contains(t) || t == last));
                if t == last {
                    assert(r < after.len());
                }
                if q < before.len() {
                    assert(r < after.len());
                }
            }
        }
    }
}

/// Adds a text to an ordered list, if it is not there yet.
fn add_text(set: &mut Vec<String>, name: &str)
    ensures
        unit_entries(text::texts(final(set)@)) == (if table::lookup(
            unit_entries(text::texts(old(set)@)),
            name@,
        ) is Some {
            unit_entries(text::texts(old(set)@))
        } else {
            table::inserted(unit_entries(text::texts(old(set)@)), name@, ())
        }),
{
    let ghost entries = unit_entries(text::texts(set@));
    let mut i: usize = 0;
    while i < set.len()
        invariant
            i <= set@.len(),
            entries == unit_entries(text::texts(set@)),
            forall|k: int| 0 <= k < i ==> (#[trigger] entries[k]).0 != name@,
        decreases set@.len() - i,
    {
        if text::same(set[i].as_str(), name) {
            proof {
                table::lemma_index_is(entries, name@, i as int);
            }
            return;
        }
        i = i + 1;
    }
    proof {
        table::lemma_index_is(entries, name@, i as int);
    }
    let mut k: usize = 0;
    while k < set.len() && !text::before(name, set[k].as_str())
        invariant
            k <= set@.len(),
            entries == unit_entries(text::texts(set@)),
            forall|j: int| 0 <= j < k ==> !text::text_before(name@, (#[trigger] entries[j]).0),
        decreases set@.len() - k,
    {
        k = k + 1;
    }
    proof {
        table::lemma_rank_is(entries, name@, k as int);
    }
    set.insert(k, String::from_str(name));
    proof {
        assert(unit_entries(text::texts(set@)) == entries.insert(k as int, (name@, ())));
    }
}

/// Texts as entries without values.
pub open spec fn unit_entries(list: Seq<Seq<char>>) -> Seq<(Seq<char>, ())> {
    list.map_values(|t: Seq<char>| (t, ()))
}

/// Collects the languages of a voice.
fn add_languages(set: &mut Vec<String>, voice: &Json, Ghost(before): Ghost<Seq<Seq<char>>>)
    requires
        unit_entries(text::texts(old(set)@)) == text_set(before),
    ensures
        unit_entries(text::texts(final(set)@)) == text_set(before + languages_of(voice@)),
{
    if let Some(Json::Array(items)) = get_member(voice, "languages") {
        let ghost views = json::items_view(items@);
        let mut i: usize = 0;
        proof {
            assert(before + text_languages(views.take(0)) == before);
        }
        while i < items.len()
            invariant
                i <= items@.len(),
                views == json::items_view(items@),
                unit_entries(text::texts(set@)) == text_set(
                    before + text_languages(views.take(i as int)),
                ),
            decreases items@.len() - i,
        {
            let ghost seen = before + text_languages(views.take(i as int));
            proof {
                assert(views.take(i + 1).drop_last() == views.take(i as int));
                assert(views.take(i + 1).last() == items@[i as int]@);
            }
            if let Json::Text(language) = &items[i] {
                add_text(set, language.as_str());
                proof {
                    let more = before + text_languages(views.take(i + 1));
                    assert(more == seen.push(language@));
                    assert(more.drop_last() == seen);
                }
            }
            i = i + 1;
        }
        proof {
            assert(views.take(i as int) == views);
        }
    } else {
        proof {
            assert(before + languages_of(voice@) == before);
        }
    }
}

/// The lines for some languages.
pub open spec fn language_lines(languages: Seq<Seq<char>>) -> Seq<char>
    decreases languages.len(),
{
    if languages.len() == 0 {
        "Available languages:\n"@
    } else {
        language_lines(languages.drop_last()) + "  - "@ + languages.last() + "\n"@
    }
}

/// Writes the listing of the languages of the available voices, in order and
/// each once.
pub fn print_languages(info: &InfoData) -> (r: String)
    ensures
        r@ == language_lines(
            text_set(all_languages(listed_voices(json::items_view(info.tts@)))).map_values(
                |e: (Seq<char>, ())| e.0,
            ),
        ),
{
    let voices = iter_voices(info);
    let ghost views = pairs_view(voices@);
    let mut set: Vec<String> = Vec::new();
    let mut i: usize = 0;
    proof {
        assert(unit_entries(text::texts(set@)) == text_set(all_languages(views.take(0))));
    }
    while i < voices.len()
        invariant
            i <= voices@.len(),
            views == pairs_view(voices@),
            unit_entries(text::texts(set@)) == text_set(all_languages(views.take(i as int))),
        decreases voices@.len() - i,
    {
        proof {
            assert(views.take(i + 1).drop_last() == views.take(i as int));
            assert(views.take(i + 1).last() == views[i as int]);
        }
        add_languages(&mut set, voices[i].1, Ghost(all_languages(views.take(i as int))));
        i = i + 1;
    }
    proof {
        assert(views.take(i as int) == views);
    }
    let ghost languages = text::texts(set@);
    let mut r = String::from_str("Available languages:\n");
    let mut i: usize = 0;
    while i < set.len()
        invariant
            i <= set@.len(),
            languages == text::texts(set@),
            r@ == language_lines(languages.take(i as int)),
        decreases set@.len() - i,
    {
        proof {
            assert(languages.take(i + 1).drop_last() == languages.take(i as int));
            assert(languages.take(i + 1).last() == set@[i as int]@);
        }
        r.append("  - ");
        r.append(set[i].as_str());
        r.append("\n");
        i = i + 1;
    }
    proof {
        assert(languages.take(i as int) == languages);
        assert(unit_entries(languages).map_values(|e: (Seq<char>, ())| e.0) == languages);
    }
    r
}

/// The voices of one more program come after those before it, all of them and in
/// the program's order, each with the program's name; a program without a name is
/// listed as `<unnamed>`.
pub proof fn law_program_listed(
    programs: Seq<JsonView>,
    fields: Seq<(Seq<char>, JsonView)>,
    name: Seq<char>,
    voices: Seq<JsonView>,
)
    requires
        json::member(fields, "voices"@) == Some(JsonView::Array(voices)),
    ensures
        listed_voices(Seq::empty()) == Seq::<(Seq<char>, JsonView)>::empty(),
        json::member(fields, "name"@) == Some(JsonView::Text(name)) ==> listed_voices(
            programs.push(JsonView::Object(fields)),
        ) == listed_voices(programs) + voices.map_values(|v: JsonView| (name, v)),
        !(json::member(fields, "name"@) matches Some(JsonView::Text(_))) ==> listed_voices(
            programs.push(JsonView::Object(fields)),
        ) == listed_voices(programs) + voices.map_values(|v: JsonView| ("<unnamed>"@, v)),
{
    let program = JsonView::Object(fields);
    let all = programs.push(program);
    assert(all.drop_last() == programs);
    assert(all.last() == program);
    assert(voices_of(program) == voices);
    let own = voices.map_values(|v: JsonView| (name_of(program), v));
    if json::member(fields, "name"@) == Some(JsonView::Text(name)) {
        assert(own =~= voices.map_values(|v: JsonView| (name, v)));
    }
    if !(json::member(fields, "name"@) matches Some(JsonView::Text(_))) {
        assert(own =~= voices.map_values(|v: JsonView| ("<unnamed>"@, v)));
    }
}

/// The listing of the voices has a line for each of them, in order, that gives
/// its name, its program and its languages.
pub proof fn law_voice_printed(
    voices: Seq<(Seq<char>, JsonView)>,
    program: Seq<char>,
    fields: Seq<(Seq<char>, JsonView)>,
)
    ensures
        voice_lines(Seq::empty()) == "Available voices:\n"@,
        voice_lines(voices.push((program, JsonView::Object(fields)))) == voice_lines(voices)
            + "  - "@ + (match json::member(fields, "name"@) {
            Some(JsonView::Text(name)) => name,
            _ => "<unnamed>"@,
        }) + " ("@ + program + ", "@ + decode_utf8(
            json::json_text(
                match json::member(fields, "languages"@) {
                    Some(languages) => languages,
                    None => JsonView::Null,
                },
            ),
        ) + ")\n"@,
{
    let all = voices.push((program, JsonView::Object(fields)));
    assert(all.drop_last() == voices);
}

/// A language is listed where some voice that is listed has it among its
/// languages, and nowhere else.
pub proof fn law_language_listed(voices: Seq<(Seq<char>, JsonView)>, language: Seq<char>)
    ensures
        table::lookup(text_set(all_languages(voices)), language) is Some <==> exists|i: int|
            0 <= i < voices.len() && #[trigger] has_language(voices[i].1, language),
    decreases voices.len(),
{
    law_text_set(all_languages(voices));
    lemma_all_languages(voices, language);
}

/// A voice has a text among its languages.
pub open spec fn has_language(voice: JsonView, language: Seq<char>) -> bool {
    get(voice, "languages"@) matches Some(JsonView::Array(items)) && items.contains(
        JsonView::Text(language),
    )
}

/// The languages of some voices are those that one of them has.
proof fn lemma_all_languages(voices: Seq<(Seq<char>, JsonView)>, language: Seq<char>)
    ensures
        all_languages(voices).contains(language) <==> exists|i: int|
            0 <= i < voices.len() && #[trigger] has_language(voices[i].1, language),
    decreases voices.len(),
{
    if voices.len() > 0 {
        let before = voices.drop_last();
        let last = voices.last();
        let a = all_languages(before);
        let b = languages_of(last.1);
        lemma_all_languages(before, language);
        lemma_languages_of(last.1, language);
        assert(voices[voices.len() - 1] == last);
        if (a + b).contains(language) {
            let k = choose|k: int| 0 <= k < (a + b).len() && (a + b)[k] == language;
            if k < a.len() {
                assert(a[k] == language);
                let i = choose|i: int|
                    0 <= i < before.len() && #[trigger] has_language(before[i].1, language);
                assert(voices[i] == before[i]);
            } else {
                assert(b[k - a.len()] == language);
            }
        }
        if exists|i: int| 0 <= i < voices.len() && #[trigger] has_language(voices[i].1, language) {
            let i = choose|i: int|
                0 <= i < voices.len() && #[trigger] has_language(voices[i].1, language);
            if i < before.len() {
                assert(before[i] == voices[i]);
                assert(a.contains(language));
                let k = choose|k: int| 0 <= k < a.len() && a[k] == language;
                assert((a + b)[k] == language);
            } else {
                let k = choose|k: int| 0 <= k < b.len() && b[k] == language;
                assert((a + b)[a.len() + k] == language);
            }
        }
    }
}

/// The languages of a voice are the texts among what it gives as such.
proof fn lemma_languages_of(voice: JsonView, language: Seq<char>)
    ensures
        languages_of(voice).contains(language) <==> has_language(voice, language),
{
    if let Some(JsonView::Array(items)) = get(voice, "languages"@) {
        lemma_text_languages(items, language);
    }
}

/// The texts of a list.
proof fn lemma_text_languages(items: Seq<JsonView>, language: Seq<char>)
    ensures
        text_languages(items).contains(language) <==> items.contains(JsonView::Text(language)),
    decreases items.len(),
{
    if items.len() > 0 {
        let before = items.drop_last();
        let shorter = text_languages(before);
        let all = text_languages(items);
        lemma_text_languages(before, language);
        assert(items[items.len() - 1] == items.last());
        if all.contains(language) {
            let k = choose|k: int| 0 <= k < all.len() && all[k] == language;
            if k < shorter.len() {
                assert(shorter[k] == language);
                let i = choose|i: int|
                    0 <= i < before.len() && before[i] == JsonView::Text(language);
                assert(items[i] == before[i]);
            }
        }
        if items.contains(JsonView::Text(language)) {
            let i = choose|i: int| 0 <= i < items.len() && items[i] == JsonView::Text(language);
            if i < before.len() {
                assert(before[i] == items[i]);
                let k = choose|k: int| 0 <= k < shorter.len() && shorter[k] == language;
                assert(all[k] == language);
            } else {
                assert(all[all.len() - 1] == language);
            }
        }
    }
}

/// The listing of the languages has a line for each of them, in order.
pub proof fn law_language_printed(languages: Seq<Seq<char>>, language: Seq<char>)
    ensures
        language_lines(Seq::empty()) == "Available languages:\n"@,
        language_lines(languages.push(language)) == language_lines(languages) + "  - "@ + language
            + "\n"@,
{
    assert(languages.push(language).drop_last() == languages);
}

} // verus!
