//! The byte images of the kernel records: sizes, alignments, and where each
//! field lies.

#![allow(non_snake_case)]

use rio::addr::{SockAddr, SOCKADDR_IN6_SIZE, SOCKADDR_IN_SIZE};
use rio::bytes::{
    get_be_u128, get_be_u16, get_be_u32, get_be_u64, get_i32, get_u16, get_u32, get_u64, put_be_u128,
    put_be_u16, put_be_u32, put_be_u64, put_i32, put_u16, put_u32, put_u64, put_zeros,
};
use rio::params::{
    io_uring_files_update, CqringOffsets, Params, SqringOffsets, CQRING_OFFSETS_ALIGN,
    CQRING_OFFSETS_SIZE, FILES_UPDATE_ALIGN, FILES_UPDATE_SIZE, PARAMS_ALIGN, PARAMS_SIZE,
    SQRING_OFFSETS_ALIGN, SQRING_OFFSETS_SIZE,
};
use rio::types::{Cqe, Sqe, CQE_ALIGN, CQE_SIZE, SQE_ALIGN, SQE_SIZE};

/// Where two images differ: the first differing byte, and the length of the
/// stretch up to the last differing byte.
fn span(a: &[u8], b: &[u8]) -> (usize, usize) {
    assert_eq!(a.len(), b.len());
    let first = (0..a.len()).find(|&i| a[i] != b[i]).unwrap();
    let last = (0..a.len()).rev().find(|&i| a[i] != b[i]).unwrap();
    (first, last - first + 1)
}

fn zero_sqe() -> Sqe {
    Sqe {
        opcode: 0,
        flags: 0,
        ioprio: 0,
        fd: 0,
        off: 0,
        addr: 0,
        len: 0,
        op_flags: 0,
        user_data: 0,
        buf_index: 0,
    }
}

fn zero_sq_off() -> SqringOffsets {
    SqringOffsets::default()
}

fn zero_cq_off() -> CqringOffsets {
    CqringOffsets::default()
}

fn zero_params() -> Params {
    Params::default()
}

#[test]
fn bindgen_test_layout_Sqe__bindgen_ty_1() {
    // The offset and the second address are two readings of the same eight
    // bytes of the entry.
    let zero = zero_sqe().to_bytes();
    let all = Sqe { off: u64::MAX, ..zero_sqe() }.to_bytes();
    let (start, len) = span(&zero, &all);
    assert_eq!(len, 8usize, "Size of: Sqe__bindgen_ty_1");
    assert_eq!(SQE_ALIGN, 8usize, "Alignment of Sqe__bindgen_ty_1");
    assert_eq!(start % SQE_ALIGN, 0usize, "Alignment of Sqe__bindgen_ty_1");
    let off = Sqe { off: 1, ..zero_sqe() }.to_bytes();
    assert_eq!(span(&zero, &off).0 - start, 0usize, "Offset of field: Sqe__bindgen_ty_1::off");
    let addr2 = Sqe { off: 0x7fff_0000_1000, ..zero_sqe() }.to_bytes();
    assert_eq!(span(&zero, &addr2).0 - start - 1, 0usize, "Offset of field: Sqe__bindgen_ty_1::addr2");
    assert_eq!(addr2[start..start + 8].to_vec(), 0x7fff_0000_1000u64.to_le_bytes().to_vec());
}

#[test]
fn bindgen_test_layout_Sqe__bindgen_ty_2() {
    // The flags of every kind of operation are readings of the same four
    // bytes of the entry.
    let zero = zero_sqe().to_bytes();
    let all = Sqe { op_flags: u32::MAX, ..zero_sqe() }.to_bytes();
    let (start, len) = span(&zero, &all);
    assert_eq!(len, 4usize, "Size of: Sqe__bindgen_ty_2");
    assert_eq!(start % 4, 0usize, "Alignment of Sqe__bindgen_ty_2");
    assert_eq!(start, 28usize);
    // Read and write flags, fsync flags, poll events, sync range flags,
    // message, timeout, accept, cancel, open and statx flags.
    for flags in [1u32, 1, 1, 6, 0x40, 1, 0x800, 1, 0x80000, 0x100] {
        let one = Sqe { op_flags: flags, ..zero_sqe() }.to_bytes();
        assert_eq!(one[start..start + 4].to_vec(), flags.to_le_bytes().to_vec());
        assert_eq!(one[..start].to_vec(), zero[..start].to_vec());
        assert_eq!(one[start + 4..].to_vec(), zero[start + 4..].to_vec());
    }
}

#[test]
fn bindgen_test_layout_Sqe__bindgen_ty_3() {
    // The buffer index opens the 24 bytes that end the entry; the rest of
    // them is padding.
    let zero = zero_sqe().to_bytes();
    let index = Sqe { buf_index: u16::MAX, ..zero_sqe() }.to_bytes();
    let (start, len) = span(&zero, &index);
    assert_eq!(len, 2usize);
    assert_eq!(zero.len() - start, 24usize, "Size of: Sqe__bindgen_ty_3");
    assert_eq!(start % 8, 0usize, "Alignment of Sqe__bindgen_ty_3");
    let low = Sqe { buf_index: 1, ..zero_sqe() }.to_bytes();
    assert_eq!(span(&zero, &low).0 - start, 0usize, "Offset of field: Sqe__bindgen_ty_3::buf_index");
    assert!(index[start + 2..].iter().all(|&b| b == 0), "Offset of field: Sqe__bindgen_ty_3::__pad2");
}

#[test]
fn bindgen_test_layout_Sqe() {
    let zero = zero_sqe().to_bytes();
    assert_eq!(zero.len(), 64usize, "Size of: Sqe");
    assert_eq!(SQE_SIZE, 64usize, "Size of: Sqe");
    assert_eq!(SQE_ALIGN, 8usize, "Alignment of Sqe");
    assert_eq!(span(&zero, &Sqe { opcode: 0xff, ..zero_sqe() }.to_bytes()), (0usize, 1));
    assert_eq!(span(&zero, &Sqe { flags: 0xff, ..zero_sqe() }.to_bytes()), (1usize, 1));
    assert_eq!(span(&zero, &Sqe { ioprio: 0xffff, ..zero_sqe() }.to_bytes()), (2usize, 2));
    assert_eq!(span(&zero, &Sqe { fd: -1, ..zero_sqe() }.to_bytes()), (4usize, 4));
    assert_eq!(span(&zero, &Sqe { off: u64::MAX, ..zero_sqe() }.to_bytes()), (8usize, 8));
    assert_eq!(span(&zero, &Sqe { addr: u64::MAX, ..zero_sqe() }.to_bytes()), (16usize, 8));
    assert_eq!(span(&zero, &Sqe { len: u32::MAX, ..zero_sqe() }.to_bytes()), (24usize, 4));
    assert_eq!(span(&zero, &Sqe { op_flags: u32::MAX, ..zero_sqe() }.to_bytes()), (28usize, 4));
    assert_eq!(span(&zero, &Sqe { user_data: u64::MAX, ..zero_sqe() }.to_bytes()), (32usize, 8));
    assert_eq!(span(&zero, &Sqe { buf_index: u16::MAX, ..zero_sqe() }.to_bytes()), (40usize, 2));
}

#[test]
fn bindgen_test_layout_Cqe() {
    let zero = Cqe { user_data: 0, res: 0, flags: 0 };
    let image = zero.to_bytes();
    assert_eq!(image.len(), 16usize, "Size of: Cqe");
    assert_eq!(CQE_SIZE, 16usize, "Size of: Cqe");
    assert_eq!(CQE_ALIGN, 8usize, "Alignment of Cqe");
    assert_eq!(
        span(&image, &Cqe { user_data: u64::MAX, ..zero }.to_bytes()).0,
        0usize,
        "Offset of field: Cqe::user_data"
    );
    assert_eq!(
        span(&image, &Cqe { res: -1, ..zero }.to_bytes()).0,
        8usize,
        "Offset of field: Cqe::res"
    );
    assert_eq!(
        span(&image, &Cqe { flags: u32::MAX, ..zero }.to_bytes()).0,
        12usize,
        "Offset of field: Cqe::flags"
    );
    assert_eq!(span(&image, &Cqe { user_data: u64::MAX, ..zero }.to_bytes()).1, 8);
    assert_eq!(span(&image, &Cqe { res: -1, ..zero }.to_bytes()).1, 4);
    assert_eq!(span(&image, &Cqe { flags: u32::MAX, ..zero }.to_bytes()).1, 4);
}

#[test]
fn bindgen_test_layout_SqringOffsets() {
    let zero = zero_sq_off();
    let image = zero.to_bytes();
    assert_eq!(image.len(), 40usize, "Size of: SqringOffsets");
    assert_eq!(SQRING_OFFSETS_SIZE, 40usize, "Size of: SqringOffsets");
    assert_eq!(SQRING_OFFSETS_ALIGN, 8usize, "Alignment of SqringOffsets");
    let at = |changed: SqringOffsets| span(&image, &changed.to_bytes()).0;
    assert_eq!(at(SqringOffsets { head: u32::MAX, ..zero }), 0usize, "Offset of field: SqringOffsets::head");
    assert_eq!(at(SqringOffsets { tail: u32::MAX, ..zero }), 4usize, "Offset of field: SqringOffsets::tail");
    assert_eq!(
        at(SqringOffsets { ring_mask: u32::MAX, ..zero }),
        8usize,
        "Offset of field: SqringOffsets::ring_mask"
    );
    assert_eq!(
        at(SqringOffsets { ring_entries: u32::MAX, ..zero }),
        12usize,
        "Offset of field: SqringOffsets::ring_entries"
    );
    assert_eq!(at(SqringOffsets { flags: u32::MAX, ..zero }), 16usize, "Offset of field: SqringOffsets::flags");
    assert_eq!(
        at(SqringOffsets { dropped: u32::MAX, ..zero }),
        20usize,
        "Offset of field: SqringOffsets::dropped"
    );
    assert_eq!(at(SqringOffsets { array: u32::MAX, ..zero }), 24usize, "Offset of field: SqringOffsets::array");
    assert_eq!(at(SqringOffsets { resv1: u32::MAX, ..zero }), 28usize, "Offset of field: SqringOffsets::resv1");
    assert_eq!(at(SqringOffsets { resv2: u64::MAX, ..zero }), 32usize, "Offset of field: SqringOffsets::resv2");
}

#[test]
fn bindgen_test_layout_CqringOffsets() {
    let zero = zero_cq_off();
    let image = zero.to_bytes();
    assert_eq!(image.len(), 40usize, "Size of: CqringOffsets");
    assert_eq!(CQRING_OFFSETS_SIZE, 40usize, "Size of: CqringOffsets");
    assert_eq!(CQRING_OFFSETS_ALIGN, 8usize, "Alignment of CqringOffsets");
    let at = |changed: CqringOffsets| span(&image, &changed.to_bytes()).0;
    assert_eq!(at(CqringOffsets { head: u32::MAX, ..zero }), 0usize, "Offset of field: CqringOffsets::head");
    assert_eq!(at(CqringOffsets { tail: u32::MAX, ..zero }), 4usize, "Offset of field: CqringOffsets::tail");
    assert_eq!(
        at(CqringOffsets { ring_mask: u32::MAX, ..zero }),
        8usize,
        "Offset of field: CqringOffsets::ring_mask"
    );
    assert_eq!(
        at(CqringOffsets { ring_entries: u32::MAX, ..zero }),
        12usize,
        "Offset of field: CqringOffsets::ring_entries"
    );
    assert_eq!(
        at(CqringOffsets { overflow: u32::MAX, ..zero }),
        16usize,
        "Offset of field: CqringOffsets::overflow"
    );
    assert_eq!(at(CqringOffsets { cqes: u32::MAX, ..zero }), 20usize, "Offset of field: CqringOffsets::cqes");
    assert_eq!(
        at(CqringOffsets { resv: [u64::MAX, u64::MAX], ..zero }),
        24usize,
        "Offset of field: CqringOffsets::resv"
    );
    assert_eq!(span(&image, &CqringOffsets { resv: [u64::MAX, u64::MAX], ..zero }.to_bytes()).1, 16);
}

#[test]
fn bindgen_test_layout_Params() {
    let zero = zero_params();
    let image = zero.to_bytes();
    assert_eq!(image.len(), 120usize, "Size of: Params");
    assert_eq!(PARAMS_SIZE, 120usize, "Size of: Params");
    assert_eq!(PARAMS_ALIGN, 8usize, "Alignment of Params");
    let at = |changed: Params| span(&image, &changed.to_bytes()).0;
    assert_eq!(at(Params { sq_entries: u32::MAX, ..zero }), 0usize, "Offset of field: Params::sq_entries");
    assert_eq!(at(Params { cq_entries: u32::MAX, ..zero }), 4usize, "Offset of field: Params::cq_entries");
    assert_eq!(at(Params { flags: u32::MAX, ..zero }), 8usize, "Offset of field: Params::flags");
    assert_eq!(
        at(Params { sq_thread_cpu: u32::MAX, ..zero }),
        12usize,
        "Offset of field: Params::sq_thread_cpu"
    );
    assert_eq!(
        at(Params { sq_thread_idle: u32::MAX, ..zero }),
        16usize,
        "Offset of field: Params::sq_thread_idle"
    );
    assert_eq!(at(Params { features: u32::MAX, ..zero }), 20usize, "Offset of field: Params::features");
    assert_eq!(at(Params { resv: [u32::MAX; 4], ..zero }), 24usize, "Offset of field: Params::resv");
    assert_eq!(
        at(Params { sq_off: SqringOffsets { head: u32::MAX, ..zero_sq_off() }, ..zero }),
        40usize,
        "Offset of field: Params::sq_off"
    );
    assert_eq!(
        at(Params { cq_off: CqringOffsets { head: u32::MAX, ..zero_cq_off() }, ..zero }),
        80usize,
        "Offset of field: Params::cq_off"
    );
    assert_eq!(span(&image, &Params { resv: [u32::MAX; 4], ..zero }.to_bytes()).1, 16);
}

#[test]
fn bindgen_test_layout_io_uring_files_update() {
    let zero = io_uring_files_update { offset: 0, fds: 0 };
    let image = zero.to_bytes();
    assert_eq!(image.len(), 16usize, "Size of: io_uring_files_update");
    assert_eq!(FILES_UPDATE_SIZE, 16usize, "Size of: io_uring_files_update");
    assert_eq!(FILES_UPDATE_ALIGN, 8usize, "Alignment of io_uring_files_update");
    assert_eq!(
        span(&image, &io_uring_files_update { offset: u32::MAX, ..zero }.to_bytes()),
        (0usize, 4),
        "Offset of field: io_uring_files_update::offset"
    );
    assert_eq!(
        span(&image, &io_uring_files_update { fds: u64::MAX, ..zero }.to_bytes()),
        (8usize, 8),
        "Offset of field: io_uring_files_update::fds"
    );
}

#[test]
fn integers_are_little_endian() {
    let mut out = Vec::new();
    put_u16(&mut out, 0x0102);
    put_u32(&mut out, 0x0304_0506);
    put_u64(&mut out, 0x0708_090a_0b0c_0d0e);
    put_i32(&mut out, -2);
    put_zeros(&mut out, 3);
    assert_eq!(
        out,
        vec![
            0x02, 0x01, 0x06, 0x05, 0x04, 0x03, 0x0e, 0x0d, 0x0c, 0x0b, 0x0a, 0x09, 0x08, 0x07, 0xfe,
            0xff, 0xff, 0xff, 0, 0, 0
        ]
    );
    assert_eq!(get_u16(&out, 0), 0x0102);
    assert_eq!(get_u32(&out, 2), 0x0304_0506);
    assert_eq!(get_u64(&out, 6), 0x0708_090a_0b0c_0d0e);
    assert_eq!(get_i32(&out, 14), -2);
}

#[test]
fn integer_extremes_round_trip() {
    for x in [i32::MIN, -1, 0, 1, i32::MAX] {
        let mut out = vec![7u8];
        put_i32(&mut out, x);
        assert_eq!(get_i32(&out, 1), x);
    }
    for x in [0u64, 1, u32::MAX as u64, u32::MAX as u64 + 1, u64::MAX] {
        let mut out = vec![7u8, 7];
        put_u64(&mut out, x);
        assert_eq!(get_u64(&out, 2), x);
        assert_eq!(out[2..].to_vec(), x.to_le_bytes().to_vec());
    }
}

#[test]
fn cqe_image_is_exact() {
    let cqe = Cqe { user_data: 0x1122_3344_5566_7788, res: -125, flags: 0xa1b2_c3d4 };
    let image = cqe.to_bytes();
    assert_eq!(
        image,
        vec![
            0x88, 0x77, 0x66, 0x55, 0x44, 0x33, 0x22, 0x11, 0x83, 0xff, 0xff, 0xff, 0xd4, 0xc3, 0xb2,
            0xa1
        ]
    );
    assert_eq!(Cqe::from_bytes(&image), Some(cqe));
    assert_eq!(Cqe::from_bytes(&image[..15]), None);
    let mut longer = image.clone();
    longer.push(0);
    assert_eq!(Cqe::from_bytes(&longer), None);
    let mut two = vec![0u8; 16];
    two.extend_from_slice(&image);
    assert_eq!(Cqe::read(&two, 16), cqe);
    let mut written = vec![9u8];
    cqe.write(&mut written);
    assert_eq!(written[0], 9);
    assert_eq!(written[1..].to_vec(), image);
}

#[test]
fn sqe_image_is_exact() {
    let sqe = Sqe {
        opcode: 2,
        flags: 4,
        ioprio: 0x0102,
        fd: 7,
        off: 4096,
        addr: 0xdead_beef,
        len: 1,
        op_flags: 1,
        user_data: 42,
        buf_index: 3,
    };
    let image = sqe.to_bytes();
    let mut expected = vec![2u8, 4, 0x02, 0x01, 7, 0, 0, 0];
    expected.extend_from_slice(&4096u64.to_le_bytes());
    expected.extend_from_slice(&0xdead_beefu64.to_le_bytes());
    expected.extend_from_slice(&1u32.to_le_bytes());
    expected.extend_from_slice(&1u32.to_le_bytes());
    expected.extend_from_slice(&42u64.to_le_bytes());
    expected.extend_from_slice(&3u16.to_le_bytes());
    expected.extend_from_slice(&[0u8; 22]);
    assert_eq!(image, expected);
    let mut written = vec![1u8, 2];
    sqe.write(&mut written);
    assert_eq!(written[2..].to_vec(), expected);
}

#[test]
fn params_round_trip() {
    let params = Params {
        sq_entries: 256,
        cq_entries: 512,
        flags: 2,
        sq_thread_cpu: 1,
        sq_thread_idle: 1000,
        features: 7,
        resv: [1, 2, 3, 4],
        sq_off: SqringOffsets {
            head: 0,
            tail: 64,
            ring_mask: 256,
            ring_entries: 264,
            flags: 276,
            dropped: 272,
            array: 8512,
            resv1: 5,
            resv2: 6,
        },
        cq_off: CqringOffsets {
            head: 128,
            tail: 192,
            ring_mask: 260,
            ring_entries: 268,
            overflow: 284,
            cqes: 320,
            resv: [8, 9],
        },
    };
    let image = params.to_bytes();
    assert_eq!(image.len(), 120);
    assert_eq!(Params::from_bytes(&image), Some(params));
    assert_eq!(Params::from_bytes(&image[1..]), None);
    assert_eq!(SqringOffsets::from_bytes(&image[40..80]), Some(params.sq_off));
    assert_eq!(CqringOffsets::from_bytes(&image[80..]), Some(params.cq_off));
    assert_eq!(SqringOffsets::read(&image, 40), params.sq_off);
    assert_eq!(CqringOffsets::read(&image, 80), params.cq_off);
    assert_eq!(SqringOffsets::from_bytes(&image[40..79]), None);
    assert_eq!(CqringOffsets::from_bytes(&image[80..119]), None);
    assert_eq!(image[4..8].to_vec(), 512u32.to_le_bytes().to_vec());
    assert_eq!(image[64..68].to_vec(), 8512u32.to_le_bytes().to_vec());
    assert_eq!(image[100..104].to_vec(), 320u32.to_le_bytes().to_vec());
}

#[test]
fn files_update_pads_between_its_fields() {
    let update = io_uring_files_update { offset: 0x0102_0304, fds: 0x1000 };
    let mut expected = vec![4u8, 3, 2, 1, 0, 0, 0, 0];
    expected.extend_from_slice(&0x1000u64.to_le_bytes());
    assert_eq!(update.to_bytes(), expected);
}

#[test]
fn network_order_is_big_endian() {
    let mut out = vec![9u8];
    put_be_u16(&mut out, 0x0102);
    put_be_u32(&mut out, 0x0304_0506);
    put_be_u64(&mut out, 0x0708_090a_0b0c_0d0e);
    put_be_u128(&mut out, 0x1011_1213_1415_1617_1819_1a1b_1c1d_1e1f);
    let mut expected = vec![9u8];
    expected.extend_from_slice(&0x0102u16.to_be_bytes());
    expected.extend_from_slice(&0x0304_0506u32.to_be_bytes());
    expected.extend_from_slice(&0x0708_090a_0b0c_0d0eu64.to_be_bytes());
    expected.extend_from_slice(&0x1011_1213_1415_1617_1819_1a1b_1c1d_1e1fu128.to_be_bytes());
    assert_eq!(out, expected);
    assert_eq!(get_be_u16(&out, 1), 0x0102);
    assert_eq!(get_be_u32(&out, 3), 0x0304_0506);
    assert_eq!(get_be_u64(&out, 7), 0x0708_090a_0b0c_0d0e);
    assert_eq!(get_be_u128(&out, 15), 0x1011_1213_1415_1617_1819_1a1b_1c1d_1e1f);
    for x in [0u128, 1, u64::MAX as u128, u64::MAX as u128 + 1, u128::MAX] {
        let mut image = vec![];
        put_be_u128(&mut image, x);
        assert_eq!(image, x.to_be_bytes().to_vec());
        assert_eq!(get_be_u128(&image, 0), x);
    }
}

#[test]
fn ipv4_socket_addresses_have_the_kernel_layout() {
    let addr = SockAddr::V4 { ip: 0x7f00_0001, port: 8080 };
    let image = addr.to_bytes();
    assert_eq!(image.len(), SOCKADDR_IN_SIZE);
    assert_eq!(image.len(), std::mem::size_of::<libc::sockaddr_in>());
    assert_eq!(image, vec![2, 0, 0x1f, 0x90, 127, 0, 0, 1, 0, 0, 0, 0, 0, 0, 0, 0]);
    assert_eq!(SockAddr::from_bytes(&image), Some(addr));
    let mut cell = image.clone();
    cell.resize(128, 0xee);
    assert_eq!(SockAddr::from_bytes(&cell), Some(addr));
    assert_eq!(SockAddr::from_bytes(&image[..15]), None);
    assert_eq!(libc::AF_INET, 2);
}

#[test]
fn ipv6_socket_addresses_have_the_kernel_layout() {
    let addr = SockAddr::V6 { ip6: 1, port: 53, flowinfo: 0x0a0b_0c0d, scope_id: 2 };
    let image = addr.to_bytes();
    assert_eq!(image.len(), SOCKADDR_IN6_SIZE);
    assert_eq!(image.len(), std::mem::size_of::<libc::sockaddr_in6>());
    let mut expected = vec![10u8, 0, 0, 53, 0x0d, 0x0c, 0x0b, 0x0a];
    expected.extend_from_slice(&[0, 0, 0, 0, 0, 0, 0, 0, 0, 0, 0, 0, 0, 0, 0, 1]);
    expected.extend_from_slice(&[2, 0, 0, 0]);
    assert_eq!(image, expected);
    assert_eq!(SockAddr::from_bytes(&image), Some(addr));
    assert_eq!(SockAddr::from_bytes(&image[..27]), None);
    assert_eq!(libc::AF_INET6, 10);
    let wide = SockAddr::V6 { ip6: u128::MAX - 5, port: u16::MAX, flowinfo: u32::MAX, scope_id: 7 };
    assert_eq!(SockAddr::from_bytes(&wide.to_bytes()), Some(wide));
}

#[test]
fn bytes_of_no_known_family_are_no_address() {
    assert_eq!(SockAddr::from_bytes(&[]), None);
    assert_eq!(SockAddr::from_bytes(&[2]), None);
    assert_eq!(SockAddr::from_bytes(&[0u8; 128]), None);
    let mut unix = vec![0u8; 128];
    unix[0] = 1;
    assert_eq!(SockAddr::from_bytes(&unix), None);
    // An IPv6 family on bytes that only reach as far as an IPv4 address.
    let mut short = vec![0u8; 16];
    short[0] = 10;
    assert_eq!(SockAddr::from_bytes(&short), None);
}
