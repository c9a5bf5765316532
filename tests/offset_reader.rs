use opendal::offset_reader::{by_offset, OffsetReader, ReadAction, SeekAction, SeekFrom};

/// Bytes of a fixed pseudo-random sequence.
fn gen_bytes(size: usize) -> Vec<u8> {
    let mut x: u64 = 0x9E3779B97F4A7C15;
    (0..size)
        .map(|_| {
            x ^= x << 13;
            x ^= x >> 7;
            x ^= x << 17;
            (x >> 24) as u8
        })
        .collect()
}

/// Drives a reader over an object held in memory, which serves ranged reads
/// and stats but cannot seek.
struct Driver<'a> {
    data: &'a [u8],
    stream: Option<(usize, usize)>,
}

impl<'a> Driver<'a> {
    fn new(data: &'a [u8]) -> Self {
        Driver { data, stream: None }
    }

    fn pull(&mut self, r: &mut OffsetReader, max: usize) -> Vec<u8> {
        loop {
            match r.read() {
                ReadAction::Eof => return Vec::new(),
                ReadAction::Open(range) => {
                    let len = self.data.len();
                    let start = (range.offset.unwrap() as usize).min(len);
                    let end = match range.size {
                        Some(s) => (start + s as usize).min(len),
                        None => len,
                    };
                    r.on_read_reply((end - start) as u64);
                    self.stream = Some((start, end));
                }
                ReadAction::Pending => unreachable!(),
                ReadAction::Stream => {
                    let (pos, end) = self.stream.unwrap();
                    let n = max.min(end - pos);
                    let bs = self.data[pos..pos + n].to_vec();
                    self.stream = Some((pos + n, end));
                    r.on_data(n as u64);
                    if n > 0 {
                        return bs;
                    }
                }
            }
        }
    }

    fn read_to_end(&mut self, r: &mut OffsetReader) -> Vec<u8> {
        let mut out = Vec::new();
        loop {
            let bs = self.pull(r, 4096);
            if bs.is_empty() {
                return out;
            }
            out.extend_from_slice(&bs);
        }
    }

    fn read_exact(&mut self, r: &mut OffsetReader, n: usize) -> Vec<u8> {
        let mut out = Vec::new();
        while out.len() < n {
            let bs = self.pull(r, n - out.len());
            assert!(!bs.is_empty(), "unexpected end");
            out.extend_from_slice(&bs);
        }
        out
    }

    fn seek(&mut self, r: &mut OffsetReader, pos: SeekFrom) -> u64 {
        loop {
            match r.seek(pos) {
                SeekAction::Ready(p) => return p,
                SeekAction::Stat => r.on_stat(self.data.len() as u64),
                SeekAction::Discard(n) => {
                    let (p, end) = self.stream.unwrap();
                    let k = (n as usize).min(end - p);
                    assert!(k > 0, "consumed bytes must be valid");
                    self.stream = Some((p + k, end));
                    r.on_discarded(k as u64);
                }
                SeekAction::Invalid => panic!("invalid seek"),
            }
        }
    }
}

#[test]
fn test_read_all() {
    let bs = gen_bytes(8 * 1024 * 1024);
    let mut r = by_offset("x", 0);
    let mut d = Driver::new(&bs);

    let buf = d.read_to_end(&mut r);
    assert_eq!(bs.len(), buf.len(), "read size");
    assert!(bs == buf, "read content");

    let n = d.seek(&mut r, SeekFrom::Start(0));
    assert_eq!(n, 0, "seek position must be 0");

    let buf = d.read_to_end(&mut r);
    assert_eq!(bs.len(), buf.len(), "read twice size");
    assert!(bs == buf, "read twice content");
}

#[test]
fn test_read_part() {
    let bs = gen_bytes(8 * 1024 * 1024);
    let mut r = by_offset("x", 4096);
    let mut d = Driver::new(&bs);

    let buf = d.read_to_end(&mut r);
    assert_eq!(bs.len() - 4096, buf.len(), "read size");
    assert!(bs[4096..] == buf[..], "read content");

    let n = d.seek(&mut r, SeekFrom::Start(0));
    assert_eq!(n, 0, "seek position must be 0");

    let buf = d.read_to_end(&mut r);
    assert_eq!(bs.len() - 4096, buf.len(), "read twice size");
    assert!(bs[4096..] == buf[..], "read twice content");

    let n = d.seek(&mut r, SeekFrom::Start(1024));
    assert_eq!(1024, n, "seek to 1024");

    let buf = d.read_exact(&mut r, 1024);
    assert!(bs[4096 + 1024..4096 + 2048] == buf[..], "read after seek 1024");

    let n = d.seek(&mut r, SeekFrom::Current(1024));
    assert_eq!(3072, n, "seek to 3072");

    let buf = d.read_exact(&mut r, 1024);
    assert!(bs[4096 + 3072..4096 + 3072 + 1024] == buf[..], "read after seek to 3072");
}

#[test]
fn seek_from_end_stats_when_size_unknown() {
    let bs = gen_bytes(10000);
    let mut r = by_offset("x", 100);
    assert_eq!(r.seek(SeekFrom::End(-10)), SeekAction::Stat);
    r.on_stat(bs.len() as u64);
    assert_eq!(r.size, Some(9900));
    assert_eq!(r.seek(SeekFrom::End(-10)), SeekAction::Ready(9890));
    let mut d = Driver::new(&bs);
    assert!(d.read_to_end(&mut r) == bs[9990..]);
}

#[test]
fn small_forward_seek_discards_and_far_seek_reopens() {
    let bs = gen_bytes(4 * 1024 * 1024);
    let mut r = by_offset("x", 0);
    let mut d = Driver::new(&bs);
    let _ = d.read_exact(&mut r, 10);
    assert_eq!(r.seek(SeekFrom::Current(300000)), SeekAction::Discard(212992));
    assert_eq!(d.seek(&mut r, SeekFrom::Current(300000)), 300010);
    assert!(d.read_exact(&mut r, 5) == bs[300010..300015]);
    assert_eq!(r.seek(SeekFrom::Start(3 * 1024 * 1024)), SeekAction::Ready(3 * 1024 * 1024));
    assert!(d.read_exact(&mut r, 5) == bs[3145728..3145733]);
}

#[test]
fn negative_seek_is_invalid() {
    let mut r = by_offset("x", 0);
    assert_eq!(r.seek(SeekFrom::Current(-1)), SeekAction::Invalid);
    assert_eq!(r.seek(SeekFrom::Start(u64::MAX)), SeekAction::Invalid);
}
