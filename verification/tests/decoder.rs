use byte_stream_split::decoder::Decoder;
use byte_stream_split::error::Error;

/// Byte-stream-split layout of `values`: plane `n` holds byte `n` of every
/// value, planes concatenated in ascending order. The companion encoder,
/// written here only to exercise the decoder against it.
fn encode_u32(values: &[u32]) -> Vec<u8> {
    let mut out = Vec::new();
    for n in 0..4 {
        for v in values {
            out.push(v.to_le_bytes()[n]);
        }
    }
    out
}

fn encode_u16(values: &[u16]) -> Vec<u8> {
    let mut out = Vec::new();
    for n in 0..2 {
        for v in values {
            out.push(v.to_le_bytes()[n]);
        }
    }
    out
}

fn encode_u64(values: &[u64]) -> Vec<u8> {
    let mut out = Vec::new();
    for n in 0..8 {
        for v in values {
            out.push(v.to_le_bytes()[n]);
        }
    }
    out
}

#[test]
fn four_byte_scenario() {
    // plane0 [0x01,0x02] + plane1 [0x03,0x04] + plane2 [0x05,0x06] + plane3 [0x07,0x08]
    let buffer: Vec<u8> = vec![0x01, 0x02, 0x03, 0x04, 0x05, 0x06, 0x07, 0x08];
    let mut d: Decoder<u32> = Decoder::try_new(&buffer, 4).unwrap();
    // element 0 = bytes [0x01,0x03,0x05,0x07] little-endian
    assert_eq!(d.next(), Some(Ok(u32::from_le_bytes([0x01, 0x03, 0x05, 0x07]))));
    assert_eq!(d.next(), Some(Ok(u32::from_le_bytes([0x02, 0x04, 0x06, 0x08]))));
    assert_eq!(d.next(), None);
}

#[test]
fn four_byte_scenario_exact_values() {
    let buffer: Vec<u8> = vec![0x01, 0x02, 0x03, 0x04, 0x05, 0x06, 0x07, 0x08];
    let mut d: Decoder<u32> = Decoder::try_new(&buffer, 4).unwrap();
    assert_eq!(d.next(), Some(Ok(0x07050301u32)));
    assert_eq!(d.next(), Some(Ok(0x08060402u32)));
    assert_eq!(d.next(), None);
}

#[test]
fn two_byte_exact_values() {
    // plane0 [0x34,0xff] + plane1 [0x12,0x00]
    let buffer: Vec<u8> = vec![0x34, 0xff, 0x12, 0x00];
    let mut d: Decoder<u16> = Decoder::try_new(&buffer, 2).unwrap();
    assert_eq!(d.next(), Some(Ok(0x1234u16)));
    assert_eq!(d.next(), Some(Ok(0x00ffu16)));
    assert_eq!(d.next(), None);
}

#[test]
fn round_trip_u16() {
    let values: Vec<u16> = vec![0, 1, 0x1234, 0xffff, 0x8000, 7];
    let buffer = encode_u16(&values);
    let mut d: Decoder<u16> = Decoder::try_new(&buffer, 2).unwrap();
    for v in &values {
        assert_eq!(d.next(), Some(Ok(*v)));
    }
    assert_eq!(d.next(), None);
}

#[test]
fn round_trip_u32() {
    let values: Vec<u32> = vec![0, 1, 0xdead_beef, u32::MAX, 0x0102_0304];
    let buffer = encode_u32(&values);
    let mut d: Decoder<u32> = Decoder::try_new(&buffer, 4).unwrap();
    for v in &values {
        assert_eq!(d.next(), Some(Ok(*v)));
    }
    assert_eq!(d.next(), None);
}

#[test]
fn round_trip_u64() {
    let values: Vec<u64> = vec![0, u64::MAX, 0x0102_0304_0506_0708, 42];
    let buffer = encode_u64(&values);
    let mut d: Decoder<u64> = Decoder::try_new(&buffer, 8).unwrap();
    for v in &values {
        assert_eq!(d.next(), Some(Ok(*v)));
    }
    assert_eq!(d.next(), None);
}

#[test]
fn round_trip_empty() {
    let values: Vec<u32> = vec![];
    let buffer = encode_u32(&values);
    let mut d: Decoder<u32> = Decoder::try_new(&buffer, 4).unwrap();
    assert_eq!(d.next(), None);
}

#[test]
fn exact_count_and_permanent_exhaustion() {
    let buffer: Vec<u8> = vec![0; 12];
    let mut d: Decoder<u32> = Decoder::try_new(&buffer, 4).unwrap();
    let mut yielded: usize = 0;
    while let Some(item) = d.next() {
        assert!(item.is_ok());
        yielded += 1;
    }
    assert_eq!(yielded, 3);
    // exhaustion is permanent
    assert_eq!(d.next(), None);
    assert_eq!(d.next(), None);
    assert_eq!(d.size_hint(), (0, Some(0)));
}

#[test]
fn rejects_mismatched_width() {
    let buffer: Vec<u8> = vec![1, 2, 3, 4, 5, 6];
    let r: Result<Decoder<u32>, Error> = Decoder::try_new(&buffer, 3);
    assert_eq!(r.unwrap_err(), Error::WidthMismatch { type_width: 4, declared_width: 3 });
}

#[test]
fn rejects_zero_width() {
    let buffer: Vec<u8> = vec![];
    let r: Result<Decoder<u16>, Error> = Decoder::try_new(&buffer, 0);
    assert_eq!(r.unwrap_err(), Error::WidthMismatch { type_width: 2, declared_width: 0 });
}

#[test]
fn rejects_misaligned_length() {
    let buffer: Vec<u8> = vec![1, 2, 3, 4, 5, 6];
    let r: Result<Decoder<u32>, Error> = Decoder::try_new(&buffer, 4);
    assert_eq!(r.unwrap_err(), Error::MisalignedLength { length: 6, width: 4 });
}

#[test]
fn empty_input_is_valid() {
    let buffer: Vec<u8> = vec![];
    let mut d: Decoder<u64> = Decoder::try_new(&buffer, 8).unwrap();
    assert_eq!(d.size_hint(), (0, Some(0)));
    assert_eq!(d.next(), None);
}

#[test]
fn size_hint_reports_remaining() {
    let values: Vec<u16> = vec![10, 20, 30, 40, 50];
    let buffer = encode_u16(&values);
    let mut d: Decoder<u16> = Decoder::try_new(&buffer, 2).unwrap();
    let n = values.len();
    for k in 0..n {
        assert_eq!(d.size_hint(), (n - k, Some(n - k)));
        assert!(d.next().is_some());
    }
    assert_eq!(d.size_hint(), (0, Some(0)));
    assert_eq!(d.next(), None);
    assert_eq!(d.size_hint(), (0, Some(0)));
}

#[test]
fn source_buffer_not_mutated() {
    let buffer: Vec<u8> = vec![0x01, 0x02, 0x03, 0x04];
    let copy = buffer.clone();
    let mut d: Decoder<u16> = Decoder::try_new(&buffer, 2).unwrap();
    while d.next().is_some() {}
    assert_eq!(buffer, copy);
}
