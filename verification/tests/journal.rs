use pentairservice::framer::{Frame, FrameKind};
use pentairservice::journal::{
    append_frame_best_effort, decode_hex, epoch_ms, FileFrameJournal, FrameIngest, JournalError,
    JournalRecord, NullIngest, RetentionPolicy, VacuumStats,
};

fn sample_frame() -> Frame {
    Frame {
        kind: FrameKind::A5,
        raw: vec![0xff, 0x00, 0xff, 0xa5, 0x01, 0x02],
        checksum_ok: true,
    }
}

/// A journal whose file is kept in memory.
struct MemoryJournal {
    journal: FileFrameJournal,
    contents: String,
}

impl MemoryJournal {
    fn open(retention: RetentionPolicy) -> Self {
        let (journal, header) = FileFrameJournal::open("mem.journal", retention, 0);
        MemoryJournal { journal, contents: header.expect("a new journal has a header") }
    }

    fn append_record(&mut self, record: &JournalRecord) {
        self.contents.push_str(&self.journal.append_record(record));
        if self.journal.appended() {
            self.vacuum_now();
        }
    }

    fn vacuum_now(&mut self) -> VacuumStats {
        let (stats, kept) = self.journal.vacuum_now(Some(self.contents.as_bytes()));
        if let Some(bytes) = kept {
            self.contents = String::from_utf8(bytes).unwrap();
        }
        stats
    }

    fn read_all(&self) -> Vec<JournalRecord> {
        FileFrameJournal::read_all(&self.contents)
    }
}

impl FrameIngest for MemoryJournal {
    fn append(&mut self, record: &JournalRecord) -> Result<(), JournalError> {
        self.append_record(record);
        Ok(())
    }
}

#[test]
fn record_round_trip_line() {
    let mut rec = JournalRecord::from_frame(&sample_frame());
    rec.ts_ms = Some(1_700_000_000_000);
    let line = rec.to_line();
    let parsed = JournalRecord::parse_line(&line).unwrap();
    assert_eq!(parsed.hex, "ff00ffa50102");
    assert_eq!(parsed.ts_ms, Some(1_700_000_000_000));
    assert!(parsed.checksum_ok);
    assert_eq!(parsed.kind, "A5");
    assert_eq!(parsed.raw_bytes().unwrap(), sample_frame().raw);
}

#[test]
fn parse_hex_only_line() {
    let rec = JournalRecord::parse_line("aabbcc").unwrap();
    assert_eq!(rec.hex, "aabbcc");
    assert_eq!(rec.raw_bytes().unwrap(), vec![0xaa, 0xbb, 0xcc]);
}

#[test]
fn parse_skips_comments() {
    assert!(JournalRecord::parse_line("# hello").is_none());
    assert!(JournalRecord::parse_line("").is_none());
}

#[test]
fn file_journal_write_and_replay_offline() {
    let mut journal = MemoryJournal::open(RetentionPolicy::none());

    let f1 = sample_frame();
    let f2 = Frame {
        kind: FrameKind::IntelliChlor,
        raw: vec![0x10, 0x02, 0x50, 0x00],
        checksum_ok: false,
    };
    journal.append_record(&JournalRecord::from_frame(&f1));
    journal.append_record(&JournalRecord::from_frame(&f2));

    let records = journal.read_all();
    assert_eq!(records.len(), 2);
    assert_eq!(records[0].raw_bytes().unwrap(), f1.raw);
    assert_eq!(records[1].kind, "IntelliChlor");
    assert!(!records[1].checksum_ok);

    let raws = FileFrameJournal::replay_raw(&journal.contents).unwrap();
    assert_eq!(raws, vec![f1.raw, f2.raw]);
}

#[test]
fn frame_ingest_trait_via_file() {
    let mut journal = MemoryJournal::open(RetentionPolicy::none());
    let rec = JournalRecord::from_frame(&sample_frame());
    {
        let sink: &mut dyn FrameIngest = &mut journal;
        sink.append(&rec).unwrap();
    }
    assert_eq!(journal.read_all().len(), 1);
}

#[test]
fn null_ingest_ok() {
    let mut n = NullIngest;
    n.append(&JournalRecord::from_frame(&sample_frame())).unwrap();
}

#[test]
fn retention_size_vacuum_trims() {
    let mut journal = MemoryJournal::open(RetentionPolicy::max_bytes(200));
    for i in 0..40 {
        let mut raw = vec![0xff, 0x00, 0xff, 0xa5, i as u8];
        raw.extend_from_slice(&[0x11, 0x22, 0x33, 0x44]);
        journal.append_record(&JournalRecord::from_frame(&Frame {
            kind: FrameKind::A5,
            raw,
            checksum_ok: true,
        }));
    }
    let before = journal.contents.len() as u64;
    assert!(before > 200, "before={before}");
    let stats = journal.vacuum_now();
    assert!(stats.bytes_after <= 200 + 120); // header slack
    assert!(stats.bytes_after < before);
    // Still readable.
    let records = journal.read_all();
    assert!(!records.is_empty());
}

#[test]
fn retention_age_stub_flags_skip() {
    let policy = RetentionPolicy {
        max_bytes: None,
        max_age_secs: Some(3600),
    };
    let mut j = MemoryJournal::open(policy);
    j.append_record(&JournalRecord::from_frame(&sample_frame()));
    let stats = j.vacuum_now();
    assert!(stats.age_stub_skipped);
    assert_eq!(j.read_all().len(), 1);
}

#[test]
fn shared_ingest_best_effort() {
    let mut shared = Some(MemoryJournal::open(RetentionPolicy::none()));
    append_frame_best_effort(&mut shared, &sample_frame()).unwrap();
    append_frame_best_effort(&mut None::<MemoryJournal>, &sample_frame()).unwrap();
    assert_eq!(shared.unwrap().read_all().len(), 1);
}

#[test]
fn bad_hex_errors() {
    let err = decode_hex("zz").unwrap_err();
    assert!(matches!(err, JournalError::BadHex(_)));
    let rec = JournalRecord {
        hex: "abc".into(),
        ts_ms: None,
        checksum_ok: true,
        kind: "A5".into(),
    };
    assert!(rec.raw_bytes().is_err());
}

#[test]
fn vacuum_missing_path_ok() {
    let (stats, kept) = RetentionPolicy::max_bytes(10).vacuum(None);
    assert_eq!(stats.bytes_before, 0);
    assert!(kept.is_none());
}

#[test]
fn journal_error_display() {
    let e = JournalError::BadHex("x".into());
    assert!(e.to_string().contains("hex"));
}

#[test]
fn auto_vacuum_on_append_interval() {
    let mut j = MemoryJournal::open(RetentionPolicy::max_bytes(150));
    j.journal.vacuum_every = 5;
    for i in 0..12 {
        j.append_record(&JournalRecord::from_frame(&Frame {
            kind: FrameKind::A5,
            raw: vec![0xaa, 0xbb, i as u8],
            checksum_ok: true,
        }));
    }
    // Still readable after the automatic checks.
    assert!(!j.read_all().is_empty());
}

// --- further cases ---------------------------------------------------------

#[test]
fn the_clock_is_read_in_milliseconds() {
    let before = std::time::UNIX_EPOCH.elapsed().unwrap().as_millis() as u64;
    let ts = JournalRecord::from_frame(&sample_frame()).ts_ms.unwrap();
    let after = std::time::UNIX_EPOCH.elapsed().unwrap().as_millis() as u64;
    assert!(before <= ts && ts <= after);
    assert_eq!(epoch_ms(None), 0);
    assert_eq!(epoch_ms(Some((1_710_000_000, 123_999_999))), 1_710_000_000_123);
    assert_eq!(epoch_ms(Some((u64::MAX, 0))), u64::MAX.wrapping_mul(1000));
}

#[test]
fn a_line_without_a_time_reads_back_as_zero() {
    let rec = JournalRecord {
        hex: "00ff".into(),
        ts_ms: None,
        checksum_ok: false,
        kind: "IntelliChlor".into(),
    };
    assert_eq!(rec.to_line(), "0\t0\tIntelliChlor\t00ff");
    let back = JournalRecord::parse_line(&rec.to_line()).unwrap();
    assert_eq!(back.ts_ms, Some(0));
    assert_eq!((back.hex, back.checksum_ok, back.kind), (rec.hex, rec.checksum_ok, rec.kind));
}

#[test]
fn lines_of_other_shapes() {
    let rec = JournalRecord::parse_line("+12\tTRUE\tx y\tAAbb\r").unwrap();
    assert_eq!(rec.ts_ms, Some(12));
    assert!(rec.checksum_ok);
    assert_eq!(rec.kind, "x y");
    assert_eq!(rec.hex, "aabb");
    let rec = JournalRecord::parse_line("soon\tyes\tA5\taabb").unwrap();
    assert_eq!(rec.ts_ms, None);
    assert!(!rec.checksum_ok);
    // Whitespace between the digits is passed over.
    let rec = JournalRecord::parse_line(" FF 00  a5 ").unwrap();
    assert_eq!(rec.hex, "ff00a5");
    assert_eq!((rec.ts_ms, rec.checksum_ok, rec.kind.as_str()), (None, true, "A5"));
    for line in ["ff\t00", " ff 0\t0 ", "f\tf\t0\t \t0"] {
        let rec = JournalRecord::parse_line(line).unwrap();
        assert_eq!((rec.hex.as_str(), rec.ts_ms, rec.kind.as_str()), ("ff00", None, "A5"));
    }
    assert_eq!(JournalRecord::parse_line("ff 00\tA5").unwrap().hex, "ff00a5");
    // Lines of neither form hold no record.
    assert!(JournalRecord::parse_line("1710000000000\t1").is_none());
    assert!(JournalRecord::parse_line("1710000000000\t1\tA5\tff\t00").is_none());
    assert!(JournalRecord::parse_line("1710000000000\t0\tA5\tff 00").is_none());
    assert!(JournalRecord::parse_line("1710000000000\t1\tA5\t").is_none());
    assert!(JournalRecord::parse_line("1710000000000\t1\tA5\tabc").is_none());
    assert!(JournalRecord::parse_line("zz ff 00\tA5").is_none());
    assert!(JournalRecord::parse_line("hello, cafe").is_none());
    assert!(JournalRecord::parse_line("  \u{2003}").is_none());
    assert!(JournalRecord::parse_line("abc").is_none());
    assert!(JournalRecord::parse_line("xyz").is_none());
    assert!(JournalRecord::parse_line("99999999999999999999\t1\tA5\taa").unwrap().ts_ms.is_none());
}

#[test]
fn many_frames_replay_as_they_came_in() {
    let mut journal = MemoryJournal::open(RetentionPolicy::none());
    let mut raws = Vec::new();
    for n in 1..40usize {
        let raw: Vec<u8> = (0..n).map(|i| (i * 37 + n) as u8).collect();
        let frame = Frame { kind: FrameKind::A5, raw: raw.clone(), checksum_ok: n % 2 == 0 };
        journal.append_record(&JournalRecord::from_frame_at(&frame, n as u64));
        raws.push(raw);
    }
    assert_eq!(FileFrameJournal::replay_raw(&journal.contents).unwrap(), raws);
    let records = journal.read_all();
    assert_eq!(records[6].ts_ms, Some(7));
    assert!(!records[6].checksum_ok);
}

#[test]
fn an_existing_journal_gets_no_header() {
    let (journal, header) = FileFrameJournal::open("a/b", RetentionPolicy::max_bytes(9), 1);
    assert!(header.is_none());
    assert_eq!(journal.path(), "a/b");
    assert_eq!(journal.retention(), &RetentionPolicy::max_bytes(9));
    assert_eq!(journal.vacuum_every, 64);
    let (_, header) = FileFrameJournal::open("a/b", RetentionPolicy::none(), 0);
    let header = header.unwrap();
    assert!(header.starts_with("# pentairservice-journal-v1\n"));
    assert!(header.ends_with("# fields: ts_ms\\tchecksum_ok\\tkind\\thex\n"));
    assert_eq!(header.lines().count(), 4);
    assert!(FileFrameJournal::read_all(&header).is_empty());
}

#[test]
fn size_checks_come_when_due() {
    let (mut journal, _) = FileFrameJournal::open("j", RetentionPolicy::max_bytes(1), 0);
    journal.vacuum_every = 3;
    let due: Vec<bool> = (0..7).map(|_| journal.appended()).collect();
    assert_eq!(due, vec![false, false, true, false, false, true, false]);
    assert_eq!(journal.appends_since_vacuum(), 1);
    journal.vacuum_every = 0;
    assert!(!journal.appended());
    let (mut unlimited, _) = FileFrameJournal::open("j", RetentionPolicy::none(), 0);
    unlimited.vacuum_every = 1;
    assert!(!unlimited.appended());
}

#[test]
fn a_cut_journal_starts_at_a_line() {
    let data = b"first\nsecond\nthird\n";
    let (stats, kept) = RetentionPolicy::max_bytes(10).vacuum(Some(data));
    let kept = String::from_utf8(kept.unwrap()).unwrap();
    assert!(kept.ends_with("stub.\nthird\n"));
    assert!(!kept.contains("second"));
    assert_eq!(stats.bytes_before, 19);
    assert_eq!(stats.bytes_after, kept.len() as u64);
    // Without a line start in the last bytes nothing is kept.
    let (_, kept) = RetentionPolicy::max_bytes(4).vacuum(Some(b"abcdefgh"));
    let kept = String::from_utf8(kept.unwrap()).unwrap();
    assert!(kept.ends_with("stub.\n"));
    assert_eq!(kept.lines().count(), 2);
    // Within the limit nothing is written.
    let (stats, kept) = RetentionPolicy::max_bytes(8).vacuum(Some(b"abcdefgh"));
    assert!(kept.is_none());
    assert_eq!((stats.bytes_before, stats.bytes_after), (8, 8));
}

struct Broken;

impl FrameIngest for Broken {
    fn append(&mut self, _record: &JournalRecord) -> Result<(), JournalError> {
        Err(JournalError::Io("disk full".into()))
    }
}

#[test]
fn a_failing_sink_is_reported() {
    let e = append_frame_best_effort(&mut Some(Broken), &sample_frame()).unwrap_err();
    assert_eq!(e.to_string(), "journal I/O: disk full");
    assert_eq!(
        JournalError::BadHex("zz".into()).to_string(),
        "invalid journal hex: zz"
    );
}
