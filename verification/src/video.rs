//! Experimental video: cutting PNG frames out of the byte stream that the
//! capture process writes, and turning decoded frames into RGBA pixels.
//!
//! A PNG frame is the 8-byte PNG signature followed by chunks; each chunk is
//! a 4-byte big-endian data length, a 4-byte type, the data and a 4-byte
//! CRC.  The frame ends with the chunk of type `IEND`.
use vstd::prelude::*;
use vstd::slice::slice_subrange;

use crate::wire::be_u32_of;

verus! {

/// Why no frame could be cut from the stream.
#[derive(Debug, Clone, Copy, PartialEq, Eq, Structural)]
pub enum PngFrameError {
    /// The stream does not start with the PNG signature.
    NotPng,
    /// The stream ended inside a chunk length.
    TruncatedChunkLength,
    /// The stream ended inside a chunk type.
    TruncatedChunkType,
    /// The stream ended inside a chunk's data or CRC.
    TruncatedChunkData,
}

impl PngFrameError {
    /// What went wrong, as reported to the user.
    pub fn message(&self) -> (s: &'static str)
        ensures
            *self == PngFrameError::NotPng ==> s@ == "ffmpeg did not emit a PNG frame"@,
            *self == PngFrameError::TruncatedChunkLength ==> s@ == "read PNG chunk length"@,
            *self == PngFrameError::TruncatedChunkType ==> s@ == "read PNG chunk type"@,
            *self == PngFrameError::TruncatedChunkData ==> s@ == "read PNG chunk data"@,
    {
        match self {
            PngFrameError::NotPng => "ffmpeg did not emit a PNG frame",
            PngFrameError::TruncatedChunkLength => "read PNG chunk length",
            PngFrameError::TruncatedChunkType => "read PNG chunk type",
            PngFrameError::TruncatedChunkData => "read PNG chunk data",
        }
    }
}

/// The 8-byte PNG signature.
pub open spec fn png_signature() -> Seq<u8> {
    seq![137u8, 80u8, 78u8, 71u8, 13u8, 10u8, 26u8, 10u8]
}

/// The chunk type `IEND`.
pub open spec fn iend_type() -> Seq<u8> {
    seq![73u8, 69u8, 78u8, 68u8]
}

/// Where the frame ends when its chunks start at `pos` of the stream `s`.
pub open spec fn png_chunks_end(s: Seq<u8>, pos: int) -> Result<int, PngFrameError>
    decreases s.len() - pos,
{
    if pos < 0 || pos + 4 > s.len() {
        Err(PngFrameError::TruncatedChunkLength)
    } else if pos + 8 > s.len() {
        Err(PngFrameError::TruncatedChunkType)
    } else {
        let data_end = pos + 8 + be_u32_of(s.subrange(pos, pos + 4)) + 4;
        if data_end > s.len() {
            Err(PngFrameError::TruncatedChunkData)
        } else if s.subrange(pos + 4, pos + 8) == iend_type() {
            Ok(data_end)
        } else {
            png_chunks_end(s, data_end)
        }
    }
}

/// Lifts a chunk-scan result to a frame result.
pub open spec fn some_end(r: Result<int, PngFrameError>) -> Result<Option<int>, PngFrameError> {
    match r {
        Ok(e) => Ok(Some(e)),
        Err(e) => Err(e),
    }
}

/// The length of the first PNG frame of the stream `s` (which holds
/// everything the capture process writes until it stops): nothing when the
/// stream ends inside the signature, an error when it holds something else
/// than a PNG or ends inside a chunk.
pub open spec fn png_frame_len(s: Seq<u8>) -> Result<Option<int>, PngFrameError> {
    if s.len() < 8 {
        Ok(None)
    } else if s.subrange(0, 8) != png_signature() {
        Err(PngFrameError::NotPng)
    } else {
        some_end(png_chunks_end(s, 8))
    }
}

/// What the reader reads next.
#[derive(Debug, Clone, Copy, PartialEq, Eq, Structural)]
pub enum PngStage {
    /// The 8-byte signature.
    Signature,
    /// The 4-byte length of the next chunk.
    ChunkLength,
    /// The 4-byte type of a chunk whose data and CRC take `data_len` bytes.
    ChunkType { data_len: u64 },
    /// The data and CRC of a chunk; `last` when the chunk is `IEND`.
    ChunkData { data_len: u64, last: bool },
}

/// A PNG frame being read piece by piece: the bytes read so far and what
/// comes next.
pub struct PngFrameReader {
    pub frame: Vec<u8>,
    pub stage: PngStage,
}

/// What feeding the reader gives.
pub enum PngStep {
    /// More must be read.
    Continue(PngFrameReader),
    /// The frame is complete.
    Frame(Vec<u8>),
    /// The stream is not a PNG.
    Invalid(PngFrameError),
}

/// What the rest of the stream `s` yields when a reader at `stage` has read
/// its first `pos` bytes.
pub open spec fn png_outcome_from(stage: PngStage, s: Seq<u8>, pos: int) -> Result<
    Option<int>,
    PngFrameError,
> {
    match stage {
        PngStage::Signature => png_frame_len(s),
        PngStage::ChunkLength => some_end(png_chunks_end(s, pos)),
        PngStage::ChunkType { data_len } => {
            if pos + 4 > s.len() {
                Err(PngFrameError::TruncatedChunkType)
            } else if pos + 4 + data_len > s.len() {
                Err(PngFrameError::TruncatedChunkData)
            } else if s.subrange(pos, pos + 4) == iend_type() {
                Ok(Some(pos + 4 + data_len))
            } else {
                some_end(png_chunks_end(s, pos + 4 + data_len))
            }
        },
        PngStage::ChunkData { data_len, last } => {
            if pos + data_len > s.len() {
                Err(PngFrameError::TruncatedChunkData)
            } else if last {
                Ok(Some(pos + data_len))
            } else {
                some_end(png_chunks_end(s, pos + data_len))
            }
        },
    }
}

/// Number of bytes the reader wants next at `stage`.
pub open spec fn png_wanted(stage: PngStage) -> u64 {
    match stage {
        PngStage::Signature => 8,
        PngStage::ChunkLength => 4,
        PngStage::ChunkType { .. } => 4,
        PngStage::ChunkData { data_len, .. } => data_len,
    }
}

/// The error a reader at `stage` reports when the stream ends before it got
/// what it wanted, or `None` when the stream may end there.
pub open spec fn png_end_error(stage: PngStage) -> Option<PngFrameError> {
    match stage {
        PngStage::Signature => None,
        PngStage::ChunkLength => Some(PngFrameError::TruncatedChunkLength),
        PngStage::ChunkType { .. } => Some(PngFrameError::TruncatedChunkType),
        PngStage::ChunkData { .. } => Some(PngFrameError::TruncatedChunkData),
    }
}

/// Whether the 8 bytes are the PNG signature.
fn is_png_signature(b: &[u8]) -> (r: bool)
    requires
        b@.len() == 8,
    ensures
        r == (b@ == png_signature()),
{
    let r = b[0] == 137 && b[1] == 80 && b[2] == 78 && b[3] == 71 && b[4] == 13 && b[5] == 10
        && b[6] == 26 && b[7] == 10;
    assert(r ==> b@ =~= png_signature());
    r
}

/// Whether the 4 bytes are the chunk type `IEND`.
fn is_iend(b: &[u8]) -> (r: bool)
    requires
        b@.len() == 4,
    ensures
        r == (b@ == iend_type()),
{
    let r = b[0] == 73 && b[1] == 69 && b[2] == 78 && b[3] == 68;
    assert(r ==> b@ =~= iend_type());
    r
}

impl PngFrameReader {
    /// A reader that has read nothing yet.
    pub fn new() -> (r: Self)
        ensures
            r.frame@ == Seq::<u8>::empty(),
            r.stage == PngStage::Signature,
    {
        PngFrameReader { frame: Vec::new(), stage: PngStage::Signature }
    }

    /// How many bytes the reader wants next.
    pub fn wanted(&self) -> (n: u64)
        ensures
            n == png_wanted(self.stage),
    {
        match self.stage {
            PngStage::Signature => 8,
            PngStage::ChunkLength => 4,
            PngStage::ChunkType { .. } => 4,
            PngStage::ChunkData { data_len, .. } => data_len,
        }
    }

    /// What the end of the stream means before the reader got what it
    /// wanted: `None` when no frame had started, otherwise the error.
    pub fn end_of_stream(&self) -> (e: Option<PngFrameError>)
        ensures
            e == png_end_error(self.stage),
    {
        match self.stage {
            PngStage::Signature => None,
            PngStage::ChunkLength => Some(PngFrameError::TruncatedChunkLength),
            PngStage::ChunkType { .. } => Some(PngFrameError::TruncatedChunkType),
            PngStage::ChunkData { .. } => Some(PngFrameError::TruncatedChunkData),
        }
    }

    /// Hands the reader the `wanted()` bytes it asked for.
    pub fn feed(self, bytes: &[u8]) -> (step: PngStep)
        requires
            bytes@.len() == png_wanted(self.stage),
        ensures
            match self.stage {
                PngStage::Signature => if bytes@ == png_signature() {
                    step matches PngStep::Continue(r) && r.frame@ == bytes@ && r.stage
                        == PngStage::ChunkLength
                } else {
                    step matches PngStep::Invalid(e) && e == PngFrameError::NotPng
                },
                PngStage::ChunkLength => step matches PngStep::Continue(r) && r.frame@
                    == self.frame@ + bytes@ && r.stage == (PngStage::ChunkType {
                    data_len: (be_u32_of(bytes@) + 4) as u64,
                }),
                PngStage::ChunkType { data_len } => step matches PngStep::Continue(r) && r.frame@
                    == self.frame@ + bytes@ && r.stage == (PngStage::ChunkData {
                    data_len,
                    last: bytes@ == iend_type(),
                }),
                PngStage::ChunkData { data_len, last } => if last {
                    step matches PngStep::Frame(f) && f@ == self.frame@ + bytes@
                } else {
                    step matches PngStep::Continue(r) && r.frame@ == self.frame@ + bytes@
                        && r.stage == PngStage::ChunkLength
                },
            },
    {
        let mut frame = self.frame;
        match self.stage {
            PngStage::Signature => {
                if is_png_signature(bytes) {
                    let mut f: Vec<u8> = Vec::new();
                    f.extend_from_slice(bytes);
                    PngStep::Continue(PngFrameReader { frame: f, stage: PngStage::ChunkLength })
                } else {
                    PngStep::Invalid(PngFrameError::NotPng)
                }
            },
            PngStage::ChunkLength => {
                let n = crate::wire::frame_payload_len(bytes);
                frame.extend_from_slice(bytes);
                PngStep::Continue(
                    PngFrameReader {
                        frame,
                        stage: PngStage::ChunkType { data_len: n as u64 + 4 },
                    },
                )
            },
            PngStage::ChunkType { data_len } => {
                let last = is_iend(bytes);
                frame.extend_from_slice(bytes);
                PngStep::Continue(
                    PngFrameReader { frame, stage: PngStage::ChunkData { data_len, last } },
                )
            },
            PngStage::ChunkData { data_len, last } => {
                frame.extend_from_slice(bytes);
                if last {
                    PngStep::Frame(frame)
                } else {
                    PngStep::Continue(PngFrameReader { frame, stage: PngStage::ChunkLength })
                }
            },
        }
    }
}

/// Feeding the reader the next bytes of a stream does not change what the
/// stream yields, and the end of the stream at any stage is reported as the
/// whole-stream reading reports it.
pub proof fn lemma_png_step(r: PngFrameReader, s: Seq<u8>, step: PngStep)
    requires
        r.frame@ == s.subrange(0, r.frame@.len() as int),
        r.frame@.len() + png_wanted(r.stage) <= s.len(),
        r.stage == PngStage::Signature ==> r.frame@.len() == 0,
        match r.stage {
            PngStage::Signature => if s.subrange(0, 8) == png_signature() {
                step matches PngStep::Continue(r2) && r2.frame@ == s.subrange(0, 8) && r2.stage
                    == PngStage::ChunkLength
            } else {
                step matches PngStep::Invalid(e) && e == PngFrameError::NotPng
            },
            PngStage::ChunkLength => step matches PngStep::Continue(r2) && r2.frame@ == s.subrange(
                0,
                r.frame@.len() + 4int,
            ) && r2.stage == (PngStage::ChunkType {
                data_len: (be_u32_of(s.subrange(r.frame@.len() as int, r.frame@.len() + 4int)) + 4) as u64,
            }),
            PngStage::ChunkType { data_len } => step matches PngStep::Continue(r2) && r2.frame@
                == s.subrange(0, r.frame@.len() + 4int) && r2.stage == (PngStage::ChunkData {
                data_len,
                last: s.subrange(r.frame@.len() as int, r.frame@.len() + 4int) == iend_type(),
            }),
            PngStage::ChunkData { data_len, last } => if last {
                step matches PngStep::Frame(f) && f@ == s.subrange(
                    0,
                    r.frame@.len() + data_len,
                )
            } else {
                step matches PngStep::Continue(r2) && r2.frame@ == s.subrange(
                    0,
                    r.frame@.len() + data_len,
                ) && r2.stage == PngStage::ChunkLength
            },
        },
    ensures
        match step {
            PngStep::Continue(r2) => png_outcome_from(r2.stage, s, r2.frame@.len() as int)
                == png_outcome_from(r.stage, s, r.frame@.len() as int),
            PngStep::Frame(f) => png_outcome_from(r.stage, s, r.frame@.len() as int) == Ok::<
                Option<int>,
                PngFrameError,
            >(Some(f@.len() as int)),
            PngStep::Invalid(e) => png_outcome_from(r.stage, s, r.frame@.len() as int) == Err::<
                Option<int>,
                PngFrameError,
            >(e),
        },
{
    let pos = r.frame@.len() as int;
    match r.stage {
        PngStage::Signature => {},
        PngStage::ChunkLength => {
            assert(s.subrange(0, pos + 4).subrange(pos, pos + 4) =~= s.subrange(pos, pos + 4));
        },
        PngStage::ChunkType { data_len } => {},
        PngStage::ChunkData { data_len, last } => {},
    }
}

/// Once the chunks starting at `pos` end at `e`, bytes after `e` make no
/// difference.
proof fn lemma_chunks_end_stable(s: Seq<u8>, pos: int, t: Seq<u8>)
    requires
        png_chunks_end(s, pos) is Ok,
    ensures
        pos + 12 <= png_chunks_end(s, pos)->Ok_0 <= s.len(),
        png_chunks_end(s + t, pos) == png_chunks_end(s, pos),
        png_chunks_end(s.subrange(0, png_chunks_end(s, pos)->Ok_0), pos) == png_chunks_end(s, pos),
    decreases s.len() - pos,
{
    let e = png_chunks_end(s, pos)->Ok_0;
    let st = s + t;
    let sc = s.subrange(0, e);
    assert(st.subrange(pos, pos + 4) =~= s.subrange(pos, pos + 4));
    assert(st.subrange(pos + 4, pos + 8) =~= s.subrange(pos + 4, pos + 8));
    let data_end = pos + 8 + be_u32_of(s.subrange(pos, pos + 4)) + 4;
    if s.subrange(pos + 4, pos + 8) == iend_type() {
        assert(e == data_end);
        assert(sc.subrange(pos, pos + 4) =~= s.subrange(pos, pos + 4));
        assert(sc.subrange(pos + 4, pos + 8) =~= s.subrange(pos + 4, pos + 8));
    } else {
        lemma_chunks_end_stable(s, data_end, t);
        lemma_chunks_end_stable(s, data_end, Seq::empty());
        assert(sc.subrange(pos, pos + 4) =~= s.subrange(pos, pos + 4));
        assert(sc.subrange(pos + 4, pos + 8) =~= s.subrange(pos + 4, pos + 8));
        let sc2 = s.subrange(0, png_chunks_end(s, data_end)->Ok_0);
        assert(sc2 =~= sc);
    }
}

/// The frame cut from a stream does not depend on what the stream holds
/// after it: the frame alone, or the frame followed by anything, yields the
/// same frame.  A frame starts with the PNG signature.
pub proof fn lemma_png_frame_prefix_stable(s: Seq<u8>, t: Seq<u8>)
    requires
        png_frame_len(s) matches Ok(Some(_)),
    ensures
        ({
            let n = png_frame_len(s)->Ok_0->Some_0;
            &&& 8 < n <= s.len()
            &&& s.subrange(0, 8) == png_signature()
            &&& png_frame_len(s + t) == png_frame_len(s)
            &&& png_frame_len(s.subrange(0, n)) == png_frame_len(s)
        }),
{
    let n = png_frame_len(s)->Ok_0->Some_0;
    lemma_chunks_end_stable(s, 8, t);
    assert((s + t).subrange(0, 8) =~= s.subrange(0, 8));
    assert(s.subrange(0, n).subrange(0, 8) =~= s.subrange(0, 8));
}

/// Cuts the first PNG frame out of `stream`, which holds everything the
/// capture process writes until it stops: `None` when the stream ends
/// inside the signature, an error when it is not a PNG or ends inside a
/// chunk, and otherwise the frame, which is the first `n` bytes of the
/// stream for the `n` that `png_frame_len` gives.
pub fn read_png_frame(stream: &[u8]) -> (r: Result<Option<Vec<u8>>, PngFrameError>)
    ensures
        match png_frame_len(stream@) {
            Ok(None) => r matches Ok(None),
            Ok(Some(n)) => r matches Ok(Some(f)) && f@ == stream@.subrange(0, n),
            Err(e) => r == Err::<Option<Vec<u8>>, PngFrameError>(e),
        },
{
    let mut reader = PngFrameReader::new();
    let mut pos: usize = 0;
    loop
        invariant
            pos <= stream@.len(),
            reader.frame@ == stream@.subrange(0, pos as int),
            reader.stage == PngStage::Signature ==> pos == 0,
            png_wanted(reader.stage) > 0,
            reader.stage matches PngStage::ChunkType { data_len } ==> data_len > 0,
            png_outcome_from(reader.stage, stream@, pos as int) == png_frame_len(stream@),
        decreases stream@.len() - pos,
    {
        let want = reader.wanted();
        if want > (stream.len() - pos) as u64 {
            proof {
                let s = stream@;
                let p = pos as int;
                match reader.stage {
                    PngStage::Signature => {},
                    PngStage::ChunkLength => {},
                    PngStage::ChunkType { data_len } => {},
                    PngStage::ChunkData { data_len, last } => {},
                }
            }
            return match reader.end_of_stream() {
                None => Ok(None),
                Some(e) => Err(e),
            };
        }
        let next = pos + want as usize;
        let bytes = slice_subrange(stream, pos, next);
        let ghost before = reader;
        let step = reader.feed(bytes);
        proof {
            assert(before.frame@ + bytes@ =~= stream@.subrange(0, next as int));
            assert(bytes@ =~= stream@.subrange(pos as int, next as int));
            lemma_png_step(before, stream@, step);
        }
        match step {
            PngStep::Continue(r2) => {
                reader = r2;
                pos = next;
            },
            PngStep::Frame(f) => {
                return Ok(Some(f));
            },
            PngStep::Invalid(e) => {
                return Err(e);
            },
        }
    }
}


/// Where the capture process takes its pictures from.
#[derive(Clone, Debug)]
pub enum CaptureSource {
    /// A Video4Linux device; `None` means the default `/dev/video0`.
    Linux { device: Option<String> },
    /// A DirectShow input such as `video=Integrated Camera`, which must be
    /// given.
    Windows { input: Option<String> },
    /// A platform without capture support.
    Unsupported,
}

/// Why no capture process can be started.
#[derive(Clone, Copy, Debug, PartialEq, Eq, Structural)]
pub enum CaptureError {
    /// On Windows the DirectShow input must be named.
    MissingWindowsInput,
    /// Capture is only implemented for Linux and Windows.
    UnsupportedPlatform,
}

impl CaptureError {
    /// The explanation shown to the user.
    pub fn message(&self) -> (s: &'static str)
        ensures
            *self == CaptureError::MissingWindowsInput ==> s@
                == "set ANTIFA_VIDEO_INPUT to a DirectShow input, for example video=Integrated Camera"@,
            *self == CaptureError::UnsupportedPlatform ==> s@
                == "local video capture is only implemented for Linux and Windows"@,
    {
        match self {
            CaptureError::MissingWindowsInput => "set ANTIFA_VIDEO_INPUT to a DirectShow input, for example video=Integrated Camera",
            CaptureError::UnsupportedPlatform => "local video capture is only implemented for Linux and Windows",
        }
    }
}

/// The views of a list of strings.
pub open spec fn string_views(v: Seq<String>) -> Seq<Seq<char>> {
    v.map_values(|s: String| s@)
}

/// The arguments that select the capture input.
pub open spec fn capture_input_args(source: CaptureSource) -> Option<Seq<Seq<char>>> {
    match source {
        CaptureSource::Linux { device } => Some(
            seq![
                "-f"@,
                "v4l2"@,
                "-framerate"@,
                "2"@,
                "-video_size"@,
                "320x240"@,
                "-i"@,
                match device {
                    Some(d) => d@,
                    None => "/dev/video0"@,
                },
            ],
        ),
        CaptureSource::Windows { input } => match input {
            Some(i) => Some(seq!["-f"@, "dshow"@, "-i"@, i@]),
            None => None,
        },
        CaptureSource::Unsupported => None,
    }
}

/// The full argument list of the `ffmpeg` capture process: quiet output,
/// the capture input, then two frames a second scaled to 320 pixels wide,
/// written as a stream of PNG images to standard output.
pub open spec fn capture_args_spec(input: Seq<Seq<char>>) -> Seq<Seq<char>> {
    seq!["-hide_banner"@, "-loglevel"@, "error"@] + input + seq![
        "-vf"@,
        "fps=2,scale=320:-1:flags=lanczos"@,
        "-f"@,
        "image2pipe"@,
        "-vcodec"@,
        "png"@,
        "pipe:1"@,
    ]
}

/// Appends a copy of `s` to `args`.
fn push_arg(args: &mut Vec<String>, s: &str)
    ensures
        string_views(final(args)@) == string_views(old(args)@).push(s@),
{
    let ghost before = args@;
    args.push(String::from_str(s));
    assert(string_views(args@) =~= string_views(before).push(s@));
}

/// The arguments of the `ffmpeg` capture process reading from `source`.
pub fn capture_args(source: &CaptureSource) -> (r: Result<Vec<String>, CaptureError>)
    ensures
        match capture_input_args(*source) {
            Some(input) => r matches Ok(args) && string_views(args@) == capture_args_spec(input),
            None => match *source {
                CaptureSource::Windows { .. } => r == Err::<Vec<String>, CaptureError>(
                    CaptureError::MissingWindowsInput,
                ),
                _ => r == Err::<Vec<String>, CaptureError>(CaptureError::UnsupportedPlatform),
            },
        },
{
    let mut args: Vec<String> = Vec::new();
    assert(string_views(args@) =~= Seq::<Seq<char>>::empty());
    push_arg(&mut args, "-hide_banner");
    push_arg(&mut args, "-loglevel");
    push_arg(&mut args, "error");
    match source {
        CaptureSource::Linux { device } => {
            push_arg(&mut args, "-f");
            push_arg(&mut args, "v4l2");
            push_arg(&mut args, "-framerate");
            push_arg(&mut args, "2");
            push_arg(&mut args, "-video_size");
            push_arg(&mut args, "320x240");
            push_arg(&mut args, "-i");
            match device {
                Some(d) => push_arg(&mut args, d.as_str()),
                None => push_arg(&mut args, "/dev/video0"),
            }
        },
        CaptureSource::Windows { input } => match input {
            Some(i) => {
                push_arg(&mut args, "-f");
                push_arg(&mut args, "dshow");
                push_arg(&mut args, "-i");
                push_arg(&mut args, i.as_str());
            },
            None => {
                return Err(CaptureError::MissingWindowsInput);
            },
        },
        CaptureSource::Unsupported => {
            return Err(CaptureError::UnsupportedPlatform);
        },
    }
    push_arg(&mut args, "-vf");
    push_arg(&mut args, "fps=2,scale=320:-1:flags=lanczos");
    push_arg(&mut args, "-f");
    push_arg(&mut args, "image2pipe");
    push_arg(&mut args, "-vcodec");
    push_arg(&mut args, "png");
    push_arg(&mut args, "pipe:1");
    proof {
        let input = capture_input_args(*source)->Some_0;
        assert(string_views(args@) =~= capture_args_spec(input));
    }
    Ok(args)
}


/// The pixel layouts a decoded PNG frame can have.
#[derive(Clone, Copy, Debug, PartialEq, Eq, Structural)]
pub enum PixelLayout {
    Grayscale,
    Rgb,
    Indexed,
    GrayscaleAlpha,
    Rgba,
}

/// Why a received frame could not be shown.
#[derive(Clone, Copy, Debug, PartialEq, Eq, Structural)]
pub enum FrameDecodeError {
    /// The PNG header could not be read.
    Metadata,
    /// The decoder could not tell how large the frame is.
    BufferSizeUnavailable,
    /// The image data could not be decoded.
    Payload,
    /// The decoder reported a frame larger than the buffer it filled.
    InconsistentSize,
    /// Only RGB and RGBA frames are shown.
    UnsupportedLayout(PixelLayout),
}

/// `p` read as RGB pixels (a trailing partial pixel is ignored), each given
/// an opaque alpha channel.
pub open spec fn rgb_to_rgba(p: Seq<u8>) -> Seq<u8> {
    Seq::new(
        (p.len() / 3 * 4) as nat,
        |i: int|
            if i % 4 == 3 {
                255u8
            } else {
                p[i / 4 * 3 + i % 4]
            },
    )
}

/// The RGBA pixels of a frame with `layout` whose samples are `pixels`.
pub open spec fn frame_rgba_spec(layout: PixelLayout, pixels: Seq<u8>) -> Result<Seq<u8>, FrameDecodeError> {
    match layout {
        PixelLayout::Rgba => Ok(pixels),
        PixelLayout::Rgb => Ok(rgb_to_rgba(pixels)),
        _ => Err(FrameDecodeError::UnsupportedLayout(layout)),
    }
}

/// Adds an opaque alpha channel to RGB pixels.
pub fn expand_rgb_to_rgba(pixels: &[u8]) -> (out: Vec<u8>)
    ensures
        out@ == rgb_to_rgba(pixels@),
{
    let len = pixels.len();
    let n = len / 3;
    let mut out: Vec<u8> = Vec::new();
    let mut k: usize = 0;
    while k < n
        invariant
            len == pixels@.len(),
            n == len / 3,
            k <= n,
            out@.len() == 4 * k,
            forall|i: int|
                0 <= i < 4 * k ==> #[trigger] out@[i] == (if i % 4 == 3 {
                    255u8
                } else {
                    pixels@[i / 4 * 3 + i % 4]
                }),
        decreases n - k,
    {
        let ghost before = out@;
        assert(3 * k + 2 < len) by (nonlinear_arith)
            requires
                k < n,
                n == len / 3,
        ;
        out.push(pixels[3 * k]);
        out.push(pixels[3 * k + 1]);
        out.push(pixels[3 * k + 2]);
        out.push(255u8);
        assert forall|i: int| 0 <= i < 4 * (k + 1) implies #[trigger] out@[i] == (if i % 4 == 3 {
            255u8
        } else {
            pixels@[i / 4 * 3 + i % 4]
        }) by {
            if i >= 4 * k {
                assert(i / 4 == k);
                assert(i % 4 == i - 4 * k);
            } else {
                assert(out@[i] == before[i]);
            }
        }
        k = k + 1;
    }
    assert(out@ =~= rgb_to_rgba(pixels@));
    out
}

/// The RGBA pixels of a decoded frame: RGBA samples are kept, RGB samples
/// get an opaque alpha channel, other layouts are refused.
pub fn frame_rgba(layout: PixelLayout, pixels: &[u8]) -> (r: Result<Vec<u8>, FrameDecodeError>)
    ensures
        match frame_rgba_spec(layout, pixels@) {
            Ok(p) => r matches Ok(v) && v@ == p,
            Err(e) => r == Err::<Vec<u8>, FrameDecodeError>(e),
        },
{
    match layout {
        PixelLayout::Rgba => {
            let mut v: Vec<u8> = Vec::new();
            v.extend_from_slice(pixels);
            Ok(v)
        },
        PixelLayout::Rgb => Ok(expand_rgb_to_rgba(pixels)),
        _ => Err(FrameDecodeError::UnsupportedLayout(layout)),
    }
}


/// The size and layout of a decoded frame, and how many bytes of the
/// decoding buffer it fills, as the PNG decoder reports them.
#[derive(Clone, Copy, Debug)]
pub struct FrameLayout {
    pub width: u32,
    pub height: u32,
    pub layout: PixelLayout,
    pub filled: usize,
}

/// A frame ready to be shown: its size and its RGBA pixels.
#[derive(Clone, Debug)]
pub struct RgbaFrame {
    pub width: u32,
    pub height: u32,
    pub rgba: Vec<u8>,
}

/// Turns what the PNG decoder produced (the frame's layout and the buffer
/// it decoded into) into a frame to show: the filled part of the buffer is
/// converted by `frame_rgba`; a layout claiming more bytes than the buffer
/// holds is refused.
pub fn frame_from_decoded(frame: FrameLayout, buffer: &[u8]) -> (r: Result<
    RgbaFrame,
    FrameDecodeError,
>)
    ensures
        frame.filled > buffer@.len() ==> r == Err::<RgbaFrame, FrameDecodeError>(
            FrameDecodeError::InconsistentSize,
        ),
        frame.filled <= buffer@.len() ==> match frame_rgba_spec(
            frame.layout,
            buffer@.subrange(0, frame.filled as int),
        ) {
            Ok(p) => r matches Ok(f) && f.width == frame.width && f.height == frame.height
                && f.rgba@ == p,
            Err(e) => r == Err::<RgbaFrame, FrameDecodeError>(e),
        },
{
    if frame.filled > buffer.len() {
        return Err(FrameDecodeError::InconsistentSize);
    }
    let pixels = slice_subrange(buffer, 0, frame.filled);
    match frame_rgba(frame.layout, pixels) {
        Ok(rgba) => Ok(RgbaFrame { width: frame.width, height: frame.height, rgba }),
        Err(e) => Err(e),
    }
}


/// What the PNG decoder makes of `bytes` (8-bit samples, palettes expanded):
/// the frame's layout and the buffer it decoded into, or the step that
/// failed.
pub uninterp spec fn png_decoded(bytes: Seq<u8>) -> Result<(FrameLayout, Seq<u8>), FrameDecodeError>;

/// Calls the `png` decoder on an in-memory PNG: `Decoder::new`, with
/// `Transformations::normalize_to_color8`, then `read_info`,
/// `output_buffer_size` and `next_frame` into a buffer of that size.  The
/// contract only names the result: it depends on the bytes alone and is
/// called `png_decoded`.
#[verifier::external_body]
fn png_decode(bytes: &[u8]) -> (r: Result<(FrameLayout, Vec<u8>), FrameDecodeError>)
    ensures
        match png_decoded(bytes@) {
            Ok((l, b)) => r matches Ok((l2, b2)) && l2 == l && b2@ == b,
            Err(e) => r == Err::<(FrameLayout, Vec<u8>), FrameDecodeError>(e),
        },
{
    let mut decoder = png::Decoder::new(std::io::Cursor::new(bytes));
    decoder.set_transformations(png::Transformations::normalize_to_color8());
    let mut reader = decoder.read_info().map_err(|_| FrameDecodeError::Metadata)?;
    let size = reader.output_buffer_size().ok_or(FrameDecodeError::BufferSizeUnavailable)?;
    let mut buf = vec![0; size];
    let info = reader.next_frame(&mut buf).map_err(|_| FrameDecodeError::Payload)?;
    let layout = match info.color_type {
        png::ColorType::Grayscale => PixelLayout::Grayscale,
        png::ColorType::Rgb => PixelLayout::Rgb,
        png::ColorType::Indexed => PixelLayout::Indexed,
        png::ColorType::GrayscaleAlpha => PixelLayout::GrayscaleAlpha,
        png::ColorType::Rgba => PixelLayout::Rgba,
    };
    Ok((FrameLayout { width: info.width, height: info.height, layout, filled: info.buffer_size() }, buf))
}

/// What decoding `bytes` into a frame to show gives: the decoder's error,
/// or the decoder's frame turned into RGBA pixels by `frame_from_decoded`.
pub open spec fn decoded_frame_spec(bytes: Seq<u8>) -> Result<(u32, u32, Seq<u8>), FrameDecodeError> {
    match png_decoded(bytes) {
        Err(e) => Err(e),
        Ok((l, b)) => if l.filled > b.len() {
            Err(FrameDecodeError::InconsistentSize)
        } else {
            match frame_rgba_spec(l.layout, b.subrange(0, l.filled as int)) {
                Ok(p) => Ok((l.width, l.height, p)),
                Err(e) => Err(e),
            }
        },
    }
}

/// Decodes a received PNG frame into RGBA pixels: the decoder expands the
/// frame to 8-bit samples, RGB frames get an opaque alpha channel, RGBA
/// frames are kept, other layouts are refused.
pub fn decode_png_frame(png_bytes: &[u8]) -> (r: Result<RgbaFrame, FrameDecodeError>)
    ensures
        match decoded_frame_spec(png_bytes@) {
            Ok((w, h, p)) => r matches Ok(f) && f.width == w && f.height == h && f.rgba@ == p,
            Err(e) => r == Err::<RgbaFrame, FrameDecodeError>(e),
        },
{
    match png_decode(png_bytes) {
        Ok((layout, buffer)) => frame_from_decoded(layout, buffer.as_slice()),
        Err(e) => Err(e),
    }
}

} // verus!
