use bytemuncher::{bytes2utf8, mutf2utf, End, Error, ErrorKind, Muncher, MutfError, DEFAULT_MAX_ALLOC};

fn m(bytes: &[u8]) -> Muncher {
    Muncher::new(bytes.to_vec())
}

#[test]
fn mixed_orders_then_end_of_data() {
    let mut muncher = m(&[0x34, 0x12, 0x56, 0x78, 0x00, 0x01]);
    assert_eq!(muncher.read_le::<u16>().unwrap(), 0x1234);
    assert_eq!(muncher.read_be::<u16>().unwrap(), 0x5678);
    assert_eq!(muncher.read_le::<u8>().unwrap(), 0);
    assert_eq!(muncher.read_le::<u8>().unwrap(), 1);
    assert_eq!(muncher.read_le::<u8>(), Err(Error::UnexpectedEof));
}

#[test]
fn round_trip_unsigned_widths() {
    let v16: u16 = 0xBEEF;
    let v32: u32 = 0xDEAD_BEEF;
    let v64: u64 = 0x0123_4567_89AB_CDEF;
    let v128: u128 = 0x0123_4567_89AB_CDEF_FEDC_BA98_7654_3210;
    let mut le = Vec::new();
    le.extend_from_slice(&v16.to_le_bytes());
    le.extend_from_slice(&v32.to_le_bytes());
    le.extend_from_slice(&v64.to_le_bytes());
    le.extend_from_slice(&v128.to_le_bytes());
    let mut a = Muncher::new(le);
    assert_eq!(a.read_u16_le().unwrap(), v16);
    assert_eq!(a.read_u32_le().unwrap(), v32);
    assert_eq!(a.read_u64_le().unwrap(), v64);
    assert_eq!(a.read_u128_le().unwrap(), v128);
    let mut be = Vec::new();
    be.extend_from_slice(&v16.to_be_bytes());
    be.extend_from_slice(&v32.to_be_bytes());
    be.extend_from_slice(&v64.to_be_bytes());
    be.extend_from_slice(&v128.to_be_bytes());
    let mut b = Muncher::new(be);
    assert_eq!(b.read_u16_be().unwrap(), v16);
    assert_eq!(b.read_u32_be().unwrap(), v32);
    assert_eq!(b.read_u64_be().unwrap(), v64);
    assert_eq!(b.read_u128_be().unwrap(), v128);
}

#[test]
fn round_trip_signed_widths() {
    let v8: i8 = -100;
    let v16: i16 = -12345;
    let v32: i32 = i32::MIN;
    let v64: i64 = -2;
    let v128: i128 = i128::MIN + 7;
    for end in [End::Little, End::Big] {
        let mut bytes = Vec::new();
        bytes.extend_from_slice(&v8.to_le_bytes());
        if end == End::Little {
            bytes.extend_from_slice(&v16.to_le_bytes());
            bytes.extend_from_slice(&v32.to_le_bytes());
            bytes.extend_from_slice(&v64.to_le_bytes());
            bytes.extend_from_slice(&v128.to_le_bytes());
        } else {
            bytes.extend_from_slice(&v16.to_be_bytes());
            bytes.extend_from_slice(&v32.to_be_bytes());
            bytes.extend_from_slice(&v64.to_be_bytes());
            bytes.extend_from_slice(&v128.to_be_bytes());
        }
        let mut d = Muncher::new(bytes);
        assert_eq!(d.read_m::<i8>(end).unwrap(), v8);
        assert_eq!(d.read_i16_endian(end).unwrap(), v16);
        assert_eq!(d.read_i32_endian(end).unwrap(), v32);
        assert_eq!(d.read_i64_endian(end).unwrap(), v64);
        assert_eq!(d.read_i128_endian(end).unwrap(), v128);
        assert_eq!(d.fill_buf().len(), 0);
    }
}

#[test]
fn signed_extremes() {
    assert_eq!(m(&[0xFF, 0xFF]).read_i16_le().unwrap(), -1);
    assert_eq!(m(&[0x80]).read_i8().unwrap(), -128);
    assert_eq!(m(&[0x7F]).read_i8().unwrap(), 127);
    assert_eq!(m(&[0xFF; 16]).read_i128_be().unwrap(), -1);
    assert_eq!(m(&[0x80, 0, 0, 0, 0, 0, 0, 0]).read_i64_be().unwrap(), i64::MIN);
    assert_eq!(m(&[0xFF, 0xFF, 0xFF, 0x7F]).read_i32_le().unwrap(), i32::MAX);
}

#[test]
fn exact_values_per_order() {
    let bytes = [0x12, 0x34, 0x56, 0x78];
    assert_eq!(m(&bytes).read_u32_be().unwrap(), 0x1234_5678);
    assert_eq!(m(&bytes).read_u32_le().unwrap(), 0x7856_3412);
    assert_eq!(m(&bytes).read_u32_endian(End::Big).unwrap(), 0x1234_5678);
    assert_eq!(m(&bytes).read_u32_endian(End::Little).unwrap(), 0x7856_3412);
    assert_eq!(m(&bytes).read_i32_be().unwrap(), 0x1234_5678);
}

#[test]
fn native_order_matches_host() {
    let bytes = [0x01, 0x02, 0x03, 0x04, 0x05, 0x06, 0x07, 0x08];
    let host_le = u16::from_ne_bytes([1, 0]) == 1;
    assert_eq!(End::Native.is_le(), host_le);
    let ne = m(&bytes).read_ne::<u64>().unwrap();
    let expected = if host_le {
        m(&bytes).read_le::<u64>().unwrap()
    } else {
        m(&bytes).read_be::<u64>().unwrap()
    };
    assert_eq!(ne, expected);
    assert_eq!(ne, u64::from_ne_bytes(bytes));
    assert_eq!(m(&bytes).read_u16_ne().unwrap(), u16::from_ne_bytes([1, 2]));
    assert_eq!(m(&bytes).read_i32_ne().unwrap(), i32::from_ne_bytes([1, 2, 3, 4]));
}

#[test]
fn opposite_twice_and_target_queries() {
    assert_eq!(End::Little.opposite().opposite(), End::Little);
    assert_eq!(End::Big.opposite().opposite(), End::Big);
    assert_eq!(End::Little.opposite(), End::Big);
    assert_eq!(End::Big.opposite(), End::Little);
    let host_le = u16::from_ne_bytes([1, 0]) == 1;
    let native_opposite = End::Native.opposite();
    assert_ne!(native_opposite, End::Native);
    assert_eq!(native_opposite.is_le(), !host_le);
    assert!(End::Little.is_le());
    assert!(!End::Big.is_le());
    assert!(End::Native.is_target_endian());
    assert_eq!(End::Little.is_target_endian(), host_le);
    assert_eq!(End::Big.is_target_endian(), !host_le);
}

#[test]
fn fixed_bytes_over_ceiling_fails_without_consuming() {
    let mut d = m(&[1, 2, 3, 4, 5]);
    d.set_max_alloc(4);
    assert_eq!(d.max_alloc_bytes(), 4);
    let r = d.read_fixed_bytes(1_000_000_000);
    assert_eq!(r, Err(Error::AllocLimit));
    assert_eq!(r.unwrap_err().kind(), ErrorKind::InvalidData);
    assert_eq!(d.fill_buf(), &[1, 2, 3, 4, 5]);
    assert_eq!(d.read_fixed_bytes(5), Err(Error::AllocLimit));
    assert_eq!(d.read_fixed_bytes(4).unwrap(), vec![1, 2, 3, 4]);
}

#[test]
fn fixed_bytes_short_input() {
    let mut d = m(&[1, 2, 3]);
    assert_eq!(d.read_fixed_bytes(0).unwrap(), Vec::<u8>::new());
    assert_eq!(d.read_fixed_bytes(4), Err(Error::UnexpectedEof));
    assert_eq!(d.fill_buf().len(), 0);
}

#[test]
fn default_ceiling_is_one_gib() {
    let d = m(&[]);
    assert_eq!(d.max_alloc_bytes(), 1024 * 1024 * 1024);
    assert_eq!(DEFAULT_MAX_ALLOC, 1 << 30);
}

#[test]
fn bool_bytes() {
    assert_eq!(m(&[0x00]).read_bool(), Ok(false));
    assert_eq!(m(&[0x01]).read_bool(), Ok(true));
    assert_eq!(m(&[0x02]).read_bool(), Err(Error::InvalidBool(0x02)));
    assert_eq!(m(&[0xFF]).read_bool(), Err(Error::InvalidBool(0xFF)));
    assert_eq!(Error::InvalidBool(0xFF).kind(), ErrorKind::InvalidData);
    assert_eq!(m(&[]).read_bool(), Err(Error::UnexpectedEof));
    let mut d = m(&[0x01, 0x00]);
    assert_eq!(d.read_bool(), Ok(true));
    assert_eq!(d.read_bool(), Ok(false));
}

#[test]
fn cstr_reads() {
    let mut d = m(b"abc\0");
    assert_eq!(d.read_cstr_utf8().unwrap(), "abc");
    assert_eq!(d.fill_buf().len(), 0);
    let mut e = m(b"abc");
    let r = e.read_cstr_utf8();
    assert_eq!(r, Err(Error::UnexpectedEof));
    assert_eq!(r.unwrap_err().kind(), ErrorKind::UnexpectedEof);
    assert_eq!(m(b"\0").read_cstr_utf8().unwrap(), "");
    assert_eq!(m(b"").read_cstr_bytes(), Err(Error::UnexpectedEof));
    let mut f = m(b"ab\0cd\0");
    assert_eq!(f.read_cstr_bytes().unwrap(), b"ab".to_vec());
    assert_eq!(f.read_cstr_bytes().unwrap(), b"cd".to_vec());
    assert_eq!(m(&[0xFF, 0x00]).read_cstr_utf8(), Err(Error::InvalidUtf8));
}

#[test]
fn line_reads() {
    let mut d = m(b"abc\ndef");
    assert_eq!(d.read_line_utf8().unwrap(), "abc\n");
    assert_eq!(d.read_line_utf8().unwrap(), "def");
    assert_eq!(d.read_line_utf8().unwrap(), "");
    assert_eq!(m(&[0xC3, 0x28, b'\n']).read_line_utf8(), Err(Error::InvalidUtf8));
}

#[test]
fn delim_reads() {
    let mut d = m(b"a,b");
    assert_eq!(d.read_delim_bytes(b',').unwrap(), b"a,".to_vec());
    assert_eq!(d.read_delim_bytes(b',').unwrap(), b"b".to_vec());
    assert_eq!(d.read_delim_bytes(b',').unwrap(), Vec::<u8>::new());
    assert_eq!(m(&[0xFF, 7]).read_delim_bytes(7).unwrap(), vec![0xFF, 7]);
}

#[test]
fn ucs2_prefixed_ascii() {
    let mut d = m(&[0x01, 0x00, 0x41]);
    assert_eq!(d.read_pref_ucs2::<u8>(End::Little).unwrap(), "A");
}

#[test]
fn ucs2_multibyte_and_prefix_order() {
    let mut d = m(&[0x00, 0x03, 0x00, 0xE9, 0x20, 0xAC, 0x00, 0x7A]);
    assert_eq!(d.read_pref_ucs2::<u16>(End::Big).unwrap(), "é€z");
    let mut e = m(&[0x02, 0x00, 0x04, 0x1F, 0xFF, 0xFD]);
    assert_eq!(e.read_pref_ucs2::<u16>(End::Little).unwrap(), "\u{41F}\u{FFFD}");
    assert_eq!(m(&[0x00, 0x80]).read_fixed_ucs2(1).unwrap(), "\u{80}");
    assert_eq!(m(&[0x07, 0xFF]).read_fixed_ucs2(1).unwrap(), "\u{7FF}");
    assert_eq!(m(&[0x08, 0x00]).read_fixed_ucs2(1).unwrap(), "\u{800}");
}

#[test]
fn ucs2_rejects_surrogates_and_limits() {
    assert_eq!(m(&[0xD8, 0x00]).read_fixed_ucs2(1), Err(Error::InvalidUcs2));
    assert_eq!(m(&[0x00, 0x41, 0xDF, 0xFF]).read_fixed_ucs2(2), Err(Error::InvalidUcs2));
    let mut d = m(&[0x00, 0x41, 0x00, 0x42]);
    d.set_max_alloc(3);
    assert_eq!(d.read_fixed_ucs2(2), Err(Error::AllocLimit));
    assert_eq!(d.read_fixed_ucs2(1).unwrap(), "A");
    assert_eq!(m(&[]).read_fixed_ucs2(usize::MAX), Err(Error::AllocLimit));
    assert_eq!(m(&[0x00]).read_fixed_ucs2(1), Err(Error::UnexpectedEof));
}

#[test]
fn prefixed_utf8_short_payload_is_io_class() {
    let mut d = m(&[5, b'a', b'b', b'c']);
    let r = d.read_pref_utf8::<u8>(End::Little);
    assert_eq!(r, Err(Error::UnexpectedEof));
    assert_eq!(r.unwrap_err().kind(), ErrorKind::UnexpectedEof);
}

#[test]
fn prefixed_utf8_and_bytes() {
    let mut d = m(&[0x00, 0x02, b'h', b'i', 0x03, 0x00, 0x00, 0x00, 1, 2, 3]);
    assert_eq!(d.read_pref_utf8::<u16>(End::Big).unwrap(), "hi");
    assert_eq!(d.read_pref_bytes::<u32>(End::Little).unwrap(), vec![1, 2, 3]);
    assert_eq!(m(&[2, 0xC3, 0xA9]).read_pref_utf8::<u8>(End::Big).unwrap(), "é");
    assert_eq!(m(&[1, 0xFF]).read_pref_utf8::<u8>(End::Big), Err(Error::InvalidUtf8));
    assert_eq!(m(&[0x00]).read_pref_bytes::<u16>(End::Little), Err(Error::UnexpectedEof));
}

#[test]
fn negative_prefix_hits_ceiling() {
    let mut d = m(&[0xFF, 1, 2]);
    d.set_max_alloc(1000);
    assert_eq!(d.read_pref_bytes::<i8>(End::Little), Err(Error::AllocLimit));
    assert_eq!(d.fill_buf(), &[1, 2]);
}

#[test]
fn fixed_utf8_reads() {
    assert_eq!(m(b"hello").read_fixed_utf8(4).unwrap(), "hell");
    assert_eq!(m(&[0xE2, 0x82, 0xAC]).read_fixed_utf8(3).unwrap(), "€");
    assert_eq!(m(&[0xE2, 0x82]).read_fixed_utf8(2), Err(Error::InvalidUtf8));
    assert_eq!(m(&[0xED, 0xA0, 0x80]).read_fixed_utf8(3), Err(Error::InvalidUtf8));
}

#[test]
fn bytes_to_utf8() {
    assert_eq!(bytes2utf8(vec![0x61, 0xC3, 0xA9]).unwrap(), "aé");
    assert_eq!(bytes2utf8(vec![0xC0, 0x80]), Err(Error::InvalidUtf8));
    assert_eq!(bytes2utf8(vec![]).unwrap(), "");
}

#[test]
fn mutf8_reads() {
    let mut d = m(&[b'A', 0xC0, 0x80, b'B', 0x00]);
    assert_eq!(d.read_cstr_mutf8().unwrap(), "A\0B");
    let emoji = [0xED, 0xA0, 0xBD, 0xED, 0xB8, 0x80];
    assert_eq!(m(&emoji).read_fixed_mutf8::<u8>(6).unwrap(), "\u{1F600}");
    let mut p = vec![6u8];
    p.extend_from_slice(&emoji);
    assert_eq!(m(&p).read_pref_mutf8::<u8>(End::Little).unwrap(), "\u{1F600}");
    assert_eq!(mutf2utf(b"plain").unwrap(), "plain");
}

#[test]
fn mutf8_failures() {
    assert!(matches!(m(&[0xC0]).read_fixed_mutf8::<u8>(1), Err(MutfError::Mutf(_))));
    assert!(matches!(
        m(&[b'a']).read_fixed_mutf8::<u8>(2),
        Err(MutfError::Io(Error::UnexpectedEof))
    ));
    assert!(matches!(m(b"abc").read_cstr_mutf8(), Err(MutfError::Io(Error::UnexpectedEof))));
    let mut d = m(&[2, 3, 4]);
    d.set_max_alloc(1);
    assert!(matches!(d.read_pref_mutf8::<u8>(End::Big), Err(MutfError::Io(Error::AllocLimit))));
    assert!(matches!(mutf2utf(&[0xE0, 0x80]), Err(MutfError::Mutf(_))));
    assert!(matches!(MutfError::from(Error::InvalidUtf8), MutfError::Io(Error::InvalidUtf8)));
}

#[test]
fn buffer_view_and_consume() {
    let mut d = m(&[1, 2, 3, 4]);
    assert_eq!(d.fill_buf(), &[1, 2, 3, 4]);
    d.consume(1);
    assert_eq!(d.fill_buf(), &[2, 3, 4]);
    assert_eq!(d.read_u8().unwrap(), 2);
    d.consume(10);
    assert_eq!(d.fill_buf().len(), 0);
    assert_eq!(d.read_u8(), Err(Error::UnexpectedEof));
}

#[test]
fn short_numeric_read_consumes_rest() {
    let mut d = m(&[1, 2, 3]);
    assert_eq!(d.read_u32_le(), Err(Error::UnexpectedEof));
    assert_eq!(d.fill_buf().len(), 0);
}

#[test]
fn arbitrary_inputs_never_panic() {
    let inputs: Vec<Vec<u8>> = vec![
        vec![],
        vec![0],
        vec![0xFF; 3],
        vec![0xFF; 40],
        vec![0x0A, 0x00, 0xC3, 0x28, 0x10, 0x20],
        (0u8..=255).collect(),
    ];
    for input in inputs {
        let mut d = Muncher::new(input.clone());
        let _ = d.read_le::<u16>();
        let _ = d.read_be::<u32>();
        let _ = d.read_cstr_bytes();
        let _ = d.read_cstr_utf8();
        let _ = d.read_line_utf8();
        let _ = d.read_pref_utf8::<u64>(End::Little);
        let mut e = Muncher::new(input.clone());
        let _ = e.read_pref_ucs2::<u32>(End::Big);
        let _ = e.read_pref_bytes::<i128>(End::Native);
        let _ = e.read_cstr_mutf8();
        let _ = e.read_bool();
        let _ = e.read_delim_bytes(0xFF);
    }
}

#[test]
fn read_into_buffer() {
    let mut d = m(&[9, 8, 7]);
    let mut buf = [0u8; 2];
    assert_eq!(d.read(&mut buf), 2);
    assert_eq!(buf, [9, 8]);
    let mut big = [1u8; 4];
    assert_eq!(d.read(&mut big), 1);
    assert_eq!(big, [7, 1, 1, 1]);
    assert_eq!(d.read(&mut big), 0);
    assert_eq!(big, [7, 1, 1, 1]);
}

#[test]
fn mutf8_malformed_text_is_replaced() {
    assert_eq!(mutf2utf(&[0xFF]).unwrap(), "\u{FFFD}");
    assert_eq!(mutf2utf(&[]).unwrap(), "");
}

#[test]
fn ceiling_setter_chains() {
    let mut d = m(&[3, 1, 2, 3]);
    d.set_max_alloc(1).set_max_alloc(3);
    assert_eq!(d.max_alloc_bytes(), 3);
    assert_eq!(d.read_pref_bytes::<u8>(End::Little).unwrap(), vec![1, 2, 3]);
}
