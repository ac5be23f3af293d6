use antifa::video::{
    capture_args, decode_png_frame, expand_rgb_to_rgba, frame_from_decoded, frame_rgba, read_png_frame,
    CaptureError, CaptureSource, FrameDecodeError, FrameLayout, PixelLayout, PngFrameError,
    PngFrameReader, PngStage, PngStep,
};

const SIGNATURE: [u8; 8] = [137, 80, 78, 71, 13, 10, 26, 10];

fn chunk(kind: &[u8; 4], data: &[u8]) -> Vec<u8> {
    let mut c = (data.len() as u32).to_be_bytes().to_vec();
    c.extend_from_slice(kind);
    c.extend_from_slice(data);
    c.extend_from_slice(&[0xde, 0xad, 0xbe, 0xef]);
    c
}

fn sample_frame() -> Vec<u8> {
    let mut f = SIGNATURE.to_vec();
    f.extend(chunk(b"IHDR", &[0, 0, 0, 1, 0, 0, 0, 1, 8, 2, 0, 0, 0]));
    f.extend(chunk(b"IDAT", &[1, 2, 3]));
    f.extend(chunk(b"IEND", &[]));
    f
}

#[test]
fn reads_one_frame_and_stops_at_iend() {
    let frame = sample_frame();
    let mut stream = frame.clone();
    stream.extend(sample_frame());
    assert_eq!(read_png_frame(&stream), Ok(Some(frame.clone())));
    assert_eq!(read_png_frame(&frame), Ok(Some(frame)));
}

#[test]
fn reads_a_real_png() {
    let mut png_bytes = Vec::new();
    {
        let mut encoder = png::Encoder::new(&mut png_bytes, 2, 2);
        encoder.set_color(png::ColorType::Rgb);
        encoder.set_depth(png::BitDepth::Eight);
        let mut writer = encoder.write_header().unwrap();
        writer.write_image_data(&[255, 0, 0, 0, 255, 0, 0, 0, 255, 9, 9, 9]).unwrap();
    }
    let mut stream = png_bytes.clone();
    stream.extend_from_slice(&[1, 2, 3]);
    assert_eq!(read_png_frame(&stream), Ok(Some(png_bytes)));
}

#[test]
fn short_stream_has_no_frame() {
    assert_eq!(read_png_frame(&[]), Ok(None));
    assert_eq!(read_png_frame(&SIGNATURE[..5]), Ok(None));
}

#[test]
fn other_data_is_not_png() {
    assert_eq!(read_png_frame(b"GIF89a.."), Err(PngFrameError::NotPng));
}

#[test]
fn truncated_frames_report_where_they_end() {
    let frame = sample_frame();
    assert_eq!(read_png_frame(&SIGNATURE), Err(PngFrameError::TruncatedChunkLength));
    assert_eq!(read_png_frame(&frame[..10]), Err(PngFrameError::TruncatedChunkLength));
    assert_eq!(read_png_frame(&frame[..14]), Err(PngFrameError::TruncatedChunkType));
    assert_eq!(read_png_frame(&frame[..20]), Err(PngFrameError::TruncatedChunkData));
    assert_eq!(read_png_frame(&frame[..frame.len() - 1]), Err(PngFrameError::TruncatedChunkData));
}

#[test]
fn reader_fed_piece_by_piece_matches_whole_stream() {
    let frame = sample_frame();
    let mut reader = PngFrameReader::new();
    assert_eq!(reader.stage, PngStage::Signature);
    assert_eq!(reader.end_of_stream(), None);
    let mut pos = 0usize;
    let out = loop {
        let n = reader.wanted() as usize;
        let bytes = &frame[pos..pos + n];
        pos += n;
        match reader.feed(bytes) {
            PngStep::Continue(r) => reader = r,
            PngStep::Frame(f) => break f,
            PngStep::Invalid(e) => panic!("unexpected {e:?}"),
        }
    };
    assert_eq!(out, frame);
    assert_eq!(pos, frame.len());
}

#[test]
fn reader_reports_end_inside_a_chunk() {
    let reader = PngFrameReader::new();
    let reader = match reader.feed(&SIGNATURE) {
        PngStep::Continue(r) => r,
        _ => panic!("signature refused"),
    };
    assert_eq!(reader.wanted(), 4);
    assert_eq!(reader.end_of_stream(), Some(PngFrameError::TruncatedChunkLength));
    let reader = match reader.feed(&[0, 0, 0, 2]) {
        PngStep::Continue(r) => r,
        _ => panic!("length refused"),
    };
    assert_eq!(reader.stage, PngStage::ChunkType { data_len: 6 });
    assert_eq!(reader.end_of_stream(), Some(PngFrameError::TruncatedChunkType));
    let reader = match reader.feed(b"IEND") {
        PngStep::Continue(r) => r,
        _ => panic!("type refused"),
    };
    assert_eq!(reader.stage, PngStage::ChunkData { data_len: 6, last: true });
    assert_eq!(reader.end_of_stream(), Some(PngFrameError::TruncatedChunkData));
    match reader.feed(&[1, 2, 3, 4, 5, 6]) {
        PngStep::Frame(f) => assert_eq!(f.len(), 8 + 4 + 4 + 6),
        _ => panic!("frame not finished"),
    }
}

#[test]
fn reader_refuses_non_png() {
    match PngFrameReader::new().feed(&[0; 8]) {
        PngStep::Invalid(e) => assert_eq!(e, PngFrameError::NotPng),
        _ => panic!("accepted a non-PNG"),
    }
}

#[test]
fn rgb_gets_opaque_alpha() {
    assert_eq!(expand_rgb_to_rgba(&[1, 2, 3, 4, 5, 6, 7]), vec![1, 2, 3, 255, 4, 5, 6, 255]);
    assert_eq!(expand_rgb_to_rgba(&[]), Vec::<u8>::new());
}

#[test]
fn frame_layouts() {
    assert_eq!(frame_rgba(PixelLayout::Rgba, &[1, 2, 3, 4]), Ok(vec![1, 2, 3, 4]));
    assert_eq!(frame_rgba(PixelLayout::Rgb, &[1, 2, 3]), Ok(vec![1, 2, 3, 255]));
    assert_eq!(
        frame_rgba(PixelLayout::Grayscale, &[1]),
        Err(FrameDecodeError::UnsupportedLayout(PixelLayout::Grayscale))
    );
    assert_eq!(
        frame_rgba(PixelLayout::Indexed, &[1]),
        Err(FrameDecodeError::UnsupportedLayout(PixelLayout::Indexed))
    );
}

#[test]
fn decoded_frame_uses_filled_part_of_buffer() {
    let layout = FrameLayout { width: 1, height: 1, layout: PixelLayout::Rgb, filled: 3 };
    let f = frame_from_decoded(layout, &[10, 20, 30, 99, 99]).unwrap();
    assert_eq!((f.width, f.height), (1, 1));
    assert_eq!(f.rgba, vec![10, 20, 30, 255]);
    let too_big = FrameLayout { width: 1, height: 1, layout: PixelLayout::Rgba, filled: 8 };
    assert_eq!(frame_from_decoded(too_big, &[0; 4]).unwrap_err(), FrameDecodeError::InconsistentSize);
}

#[test]
fn decodes_a_real_png_into_rgba() {
    let mut png_bytes = Vec::new();
    {
        let mut encoder = png::Encoder::new(&mut png_bytes, 2, 1);
        encoder.set_color(png::ColorType::Rgb);
        encoder.set_depth(png::BitDepth::Eight);
        let mut writer = encoder.write_header().unwrap();
        writer.write_image_data(&[1, 2, 3, 4, 5, 6]).unwrap();
    }
    let mut decoder = png::Decoder::new(std::io::Cursor::new(&png_bytes[..]));
    decoder.set_transformations(png::Transformations::normalize_to_color8());
    let mut reader = decoder.read_info().unwrap();
    let mut buffer = vec![0; reader.output_buffer_size().unwrap()];
    let info = reader.next_frame(&mut buffer).unwrap();
    let layout = FrameLayout {
        width: info.width,
        height: info.height,
        layout: PixelLayout::Rgb,
        filled: info.buffer_size(),
    };
    let f = frame_from_decoded(layout, &buffer).unwrap();
    assert_eq!(f.rgba, vec![1, 2, 3, 255, 4, 5, 6, 255]);
}

fn strings(v: &[&str]) -> Vec<String> {
    v.iter().map(|s| s.to_string()).collect()
}

const TAIL: [&str; 7] =
    ["-vf", "fps=2,scale=320:-1:flags=lanczos", "-f", "image2pipe", "-vcodec", "png", "pipe:1"];

#[test]
fn linux_capture_defaults_to_video0() {
    let args = capture_args(&CaptureSource::Linux { device: None }).unwrap();
    let mut expected = strings(&["-hide_banner", "-loglevel", "error", "-f", "v4l2", "-framerate", "2", "-video_size", "320x240", "-i", "/dev/video0"]);
    expected.extend(strings(&TAIL));
    assert_eq!(args, expected);
}

#[test]
fn linux_capture_uses_given_device() {
    let args =
        capture_args(&CaptureSource::Linux { device: Some("/dev/video2".to_owned()) }).unwrap();
    assert_eq!(args[10], "/dev/video2");
    assert_eq!(args.len(), 18);
}

#[test]
fn windows_capture_needs_input() {
    assert_eq!(
        capture_args(&CaptureSource::Windows { input: None }),
        Err(CaptureError::MissingWindowsInput)
    );
    let args = capture_args(&CaptureSource::Windows {
        input: Some("video=Integrated Camera".to_owned()),
    })
    .unwrap();
    let mut expected =
        strings(&["-hide_banner", "-loglevel", "error", "-f", "dshow", "-i", "video=Integrated Camera"]);
    expected.extend(strings(&TAIL));
    assert_eq!(args, expected);
}

#[test]
fn other_platforms_cannot_capture() {
    assert_eq!(capture_args(&CaptureSource::Unsupported), Err(CaptureError::UnsupportedPlatform));
    assert_eq!(
        CaptureError::UnsupportedPlatform.message(),
        "local video capture is only implemented for Linux and Windows"
    );
    assert_eq!(
        CaptureError::MissingWindowsInput.message(),
        "set ANTIFA_VIDEO_INPUT to a DirectShow input, for example video=Integrated Camera"
    );
}

#[test]
fn png_error_messages() {
    assert_eq!(PngFrameError::NotPng.message(), "ffmpeg did not emit a PNG frame");
    assert_eq!(PngFrameError::TruncatedChunkLength.message(), "read PNG chunk length");
    assert_eq!(PngFrameError::TruncatedChunkType.message(), "read PNG chunk type");
    assert_eq!(PngFrameError::TruncatedChunkData.message(), "read PNG chunk data");
}

fn encode_png(width: u32, height: u32, color: png::ColorType, palette: Option<Vec<u8>>, data: &[u8]) -> Vec<u8> {
    let mut out = Vec::new();
    {
        let mut encoder = png::Encoder::new(&mut out, width, height);
        encoder.set_color(color);
        encoder.set_depth(png::BitDepth::Eight);
        if let Some(p) = palette {
            encoder.set_palette(p);
        }
        let mut writer = encoder.write_header().unwrap();
        writer.write_image_data(data).unwrap();
    }
    out
}

#[test]
fn decode_png_frame_expands_rgb() {
    let bytes = encode_png(2, 1, png::ColorType::Rgb, None, &[1, 2, 3, 4, 5, 6]);
    let f = decode_png_frame(&bytes).unwrap();
    assert_eq!((f.width, f.height), (2, 1));
    assert_eq!(f.rgba, vec![1, 2, 3, 255, 4, 5, 6, 255]);
}

#[test]
fn decode_png_frame_keeps_rgba() {
    let bytes = encode_png(1, 2, png::ColorType::Rgba, None, &[9, 8, 7, 6, 5, 4, 3, 2]);
    let f = decode_png_frame(&bytes).unwrap();
    assert_eq!((f.width, f.height), (1, 2));
    assert_eq!(f.rgba, vec![9, 8, 7, 6, 5, 4, 3, 2]);
}

#[test]
fn decode_png_frame_expands_palettes() {
    let bytes =
        encode_png(2, 1, png::ColorType::Indexed, Some(vec![10, 20, 30, 40, 50, 60]), &[1, 0]);
    let f = decode_png_frame(&bytes).unwrap();
    assert_eq!(f.rgba, vec![40, 50, 60, 255, 10, 20, 30, 255]);
}

#[test]
fn decode_png_frame_refuses_grayscale() {
    let bytes = encode_png(1, 1, png::ColorType::Grayscale, None, &[5]);
    assert_eq!(
        decode_png_frame(&bytes).unwrap_err(),
        FrameDecodeError::UnsupportedLayout(PixelLayout::Grayscale)
    );
}

#[test]
fn decode_png_frame_refuses_other_data() {
    assert_eq!(decode_png_frame(b"not a png at all").unwrap_err(), FrameDecodeError::Metadata);
    assert_eq!(decode_png_frame(&[]).unwrap_err(), FrameDecodeError::Metadata);
}
