use tcp_proto::codec::{read_segment, FrameError, Ipv4Header, TcpHeader};

fn plain_frame(payload: &[u8]) -> Vec<u8> {
    let mut out = Vec::new();
    etherparse::PacketBuilder::ipv4([10, 0, 0, 2], [10, 0, 0, 1], 33)
        .tcp(1234, 4000, 0x0102_0304, 1024)
        .ack(0x0A0B_0C0D)
        .fin()
        .write(&mut out, payload)
        .unwrap();
    out
}

#[test]
fn read_segment_gives_both_headers() {
    let frame = plain_frame(&[9, 8, 7]);
    let (ip, tcp, data_at) = read_segment(&frame).unwrap();
    assert_eq!(
        ip,
        Ipv4Header {
            source: 0x0A00_0002,
            destination: 0x0A00_0001,
            time_to_live: 33,
            protocol: 6,
            payload_len: 23,
        }
    );
    assert_eq!(
        tcp,
        TcpHeader {
            source_port: 1234,
            destination_port: 4000,
            sequence_number: 0x0102_0304,
            acknowledgment_number: 0x0A0B_0C0D,
            syn: false,
            ack: true,
            fin: true,
            window_size: 1024,
            checksum: u16::from_be_bytes([frame[36], frame[37]]),
        }
    );
    assert_eq!(data_at, 40);
    assert_eq!(&frame[data_at..], &[9, 8, 7]);
}

#[test]
fn read_segment_reads_each_flag_from_its_bit() {
    let mut frame = plain_frame(&[]);
    for flags in 0..=255u8 {
        frame[33] = flags;
        let (_, tcp, _) = read_segment(&frame).unwrap();
        assert_eq!(tcp.fin, flags & 1 != 0);
        assert_eq!(tcp.syn, flags & 2 != 0);
        assert_eq!(tcp.ack, flags & 16 != 0);
    }
}

#[test]
fn read_segment_skips_options() {
    let plain = plain_frame(&[]);
    let mut frame = Vec::new();
    frame.extend_from_slice(&plain[..20]);
    frame.extend_from_slice(&[0; 8]);
    frame.extend_from_slice(&plain[20..]);
    frame.extend_from_slice(&[0; 12]);
    frame.extend_from_slice(&[0xAA, 0xBB]);
    frame[0] = 0x47;
    frame[3] = 62;
    frame[28 + 12] = 0x80;
    let (ip, tcp, data_at) = read_segment(&frame).unwrap();
    assert_eq!(ip.payload_len, 34);
    assert_eq!(tcp.sequence_number, 0x0102_0304);
    assert_eq!(data_at, 60);
    assert_eq!(&frame[data_at..], &[0xAA, 0xBB]);
}

#[test]
fn read_segment_bad_ipv4_header() {
    let good = plain_frame(&[]);
    assert_eq!(read_segment(&[]), Err(FrameError::BadIpv4Header));
    assert_eq!(read_segment(&good[..19]), Err(FrameError::BadIpv4Header));

    let mut frame = good.clone();
    frame[0] = 0x55;
    assert_eq!(read_segment(&frame), Err(FrameError::BadIpv4Header));
    frame[0] = 0x44;
    assert_eq!(read_segment(&frame), Err(FrameError::BadIpv4Header));
    frame[0] = 0x4B;
    assert_eq!(read_segment(&frame), Err(FrameError::BadIpv4Header));
    // eleven header words need forty-four bytes
    frame.extend_from_slice(&[0; 3]);
    assert_eq!(read_segment(&frame), Err(FrameError::BadIpv4Header));

    let mut frame = good.clone();
    frame[2] = 0;
    frame[3] = 19;
    assert_eq!(read_segment(&frame), Err(FrameError::BadIpv4Header));
    frame[3] = 20;
    assert!(read_segment(&frame).is_ok());
}

#[test]
fn read_segment_not_tcp() {
    let mut frame = plain_frame(&[]);
    frame[9] = 17;
    assert_eq!(read_segment(&frame), Err(FrameError::NotTcp));
    frame[9] = 0;
    assert_eq!(read_segment(&frame), Err(FrameError::NotTcp));
    // the protocol is looked at before the TCP header
    assert_eq!(read_segment(&frame[..20]), Err(FrameError::NotTcp));
}

#[test]
fn read_segment_bad_tcp_header() {
    let good = plain_frame(&[]);
    assert_eq!(read_segment(&good[..20]), Err(FrameError::BadTcpHeader));
    assert_eq!(read_segment(&good[..39]), Err(FrameError::BadTcpHeader));
    let mut frame = good.clone();
    frame[32] = 0x4F;
    assert_eq!(read_segment(&frame), Err(FrameError::BadTcpHeader));
    frame[32] = 0x60;
    assert_eq!(read_segment(&frame), Err(FrameError::BadTcpHeader));
    frame.extend_from_slice(&[0; 4]);
    assert_eq!(read_segment(&frame).unwrap().2, 44);
}
