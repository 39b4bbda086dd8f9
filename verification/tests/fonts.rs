use tectonic_wasi::fonts::{
    append_to_list, face_refs, font_directory, is_family_member, is_font_file, prepend_to_list,
    read_names, read_names_checked, FaceNameData, FontDecision, NameCollection, SfntNameRecord,
    WasiFontRef, WasiFsBackend,
};

fn utf16be(s: &str) -> Vec<u8> {
    s.encode_utf16().flat_map(|u| u.to_be_bytes()).collect()
}

fn record(platform_id: u16, encoding_id: u16, language_id: u16, name_id: u16, bytes: Vec<u8>) -> Option<SfntNameRecord> {
    Some(SfntNameRecord { platform_id, encoding_id, language_id, name_id, bytes })
}

fn names(family: &[&str], style: &[&str], full: &[&str]) -> NameCollection {
    let b = |v: &[&str]| v.iter().map(|s| s.as_bytes().to_vec()).collect::<Vec<_>>();
    NameCollection {
        family_names: b(family),
        style_names: b(style),
        full_names: b(full),
        ps_name: Some(b"PS".to_vec()),
    }
}

#[test]
fn font_files_by_extension() {
    assert!(is_font_file("/fonts/a.ttf"));
    assert!(is_font_file("/fonts/B.OTF"));
    assert!(is_font_file("/fonts/c.ttc"));
    assert!(is_font_file("/fonts/d.dfont"));
    assert!(!is_font_file("/fonts/e.woff"));
    assert!(!is_font_file("/fonts/ttf"));
    assert!(!is_font_file("/fonts/f\0.ttf"));
}

#[test]
fn faces_of_a_collection() {
    let refs = face_refs("/fonts/x.ttc", 3);
    assert_eq!(refs.len(), 3);
    for (i, r) in refs.iter().enumerate() {
        assert_eq!(r.path, "/fonts/x.ttc");
        assert_eq!(r.index, i as i32);
    }
    assert!(face_refs("/fonts/y.ttf", 0).is_empty());
    assert_eq!(font_directory(None), "/fonts");
    assert_eq!(font_directory(Some("/f".to_string())), "/f");
}

#[test]
fn name_list_updates() {
    let mut l = vec![b"A".to_vec(), b"B".to_vec()];
    append_to_list(&mut l, b"B".to_vec());
    assert_eq!(l, vec![b"A".to_vec(), b"B".to_vec()]);
    append_to_list(&mut l, b"C".to_vec());
    assert_eq!(l, vec![b"A".to_vec(), b"B".to_vec(), b"C".to_vec()]);
    prepend_to_list(&mut l, b"B".to_vec());
    assert_eq!(l, vec![b"B".to_vec(), b"A".to_vec(), b"C".to_vec()]);
    prepend_to_list(&mut l, b"D".to_vec());
    assert_eq!(l, vec![b"D".to_vec(), b"B".to_vec(), b"A".to_vec(), b"C".to_vec()]);
}

#[test]
fn names_from_sfnt_records() {
    let face = FaceNameData {
        ps_name: Some(b"Lato-Bold".to_vec()),
        is_sfnt: true,
        records: vec![
            record(3, 1, 0x409, 1, utf16be("Lato")),
            record(3, 1, 0x409, 2, utf16be("Bold")),
            record(3, 1, 0x409, 4, utf16be("Lato Bold")),
            None,
            record(1, 0, 0, 1, vec![b'L', 0x8A]),
            record(3, 1, 0x409, 16, utf16be("Lato Pref")),
            record(1, 1, 0, 1, b"ignored".to_vec()),
            record(3, 1, 0x409, 6, utf16be("other id")),
            record(0, 3, 0, 1, utf16be("Lato")),
        ],
        family_name: None,
        style_name: None,
    };
    let c = read_names(&Some(face));
    assert_eq!(c.ps_name, Some(b"Lato-Bold".to_vec()));
    assert_eq!(c.family_names, vec!["Lä".as_bytes().to_vec(), b"Lato".to_vec()]);
    assert_eq!(c.style_names, vec![b"Bold".to_vec()]);
    assert_eq!(c.full_names, vec![b"Lato Bold".to_vec()]);
}

#[test]
fn names_of_plain_faces() {
    let face = FaceNameData {
        ps_name: Some(b"Cm".to_vec()),
        is_sfnt: false,
        records: vec![],
        family_name: Some(b"Computer Modern".to_vec()),
        style_name: Some(b"Roman".to_vec()),
    };
    let c = read_names(&Some(face));
    assert_eq!(c.family_names, vec![b"Computer Modern".to_vec()]);
    assert_eq!(c.style_names, vec![b"Roman".to_vec()]);
    assert!(c.full_names.is_empty());

    let unnamed = FaceNameData {
        ps_name: None,
        is_sfnt: false,
        records: vec![],
        family_name: Some(b"X".to_vec()),
        style_name: None,
    };
    let c = read_names(&Some(unnamed));
    assert!(c.family_names.is_empty() && c.ps_name.is_none());
    let c = read_names(&None);
    assert!(c.family_names.is_empty() && c.ps_name.is_none());
}

#[test]
fn undecodable_records_are_refused() {
    let odd = FaceNameData {
        ps_name: Some(b"P".to_vec()),
        is_sfnt: true,
        records: vec![record(3, 1, 0x409, 1, vec![0x00])],
        family_name: None,
        style_name: None,
    };
    assert!(read_names_checked(&Some(odd)).is_none());
    let nul = FaceNameData {
        ps_name: Some(b"P".to_vec()),
        is_sfnt: true,
        records: vec![record(3, 1, 0x409, 4, vec![0x00, 0x00])],
        family_name: None,
        style_name: None,
    };
    assert!(read_names_checked(&Some(nul)).is_none());
    let fine = FaceNameData {
        ps_name: Some(b"P".to_vec()),
        is_sfnt: true,
        records: vec![record(3, 1, 0x409, 6, vec![0x00])],
        family_name: None,
        style_name: None,
    };
    assert!(read_names_checked(&Some(fine)).is_some());
}

fn backend() -> WasiFsBackend {
    WasiFsBackend::new(vec![
        WasiFontRef { path: "/fonts/a.otf".to_string(), index: 0 },
        WasiFontRef { path: "/fonts/b.otf".to_string(), index: 0 },
    ])
}

#[test]
fn search_by_full_family_and_style_names() {
    let b = backend();
    assert_eq!(b.get_platform_font_desc(&b.all_fonts()[1]), "/fonts/b.otf");
    let mut s = b.start_search(b"Lato Bold").unwrap();
    assert!(s.reads_names(false));
    assert!(!s.reads_names(true));
    assert_eq!(s.visit(true, &names(&["Lato"], &["Bold"], &["Lato Bold"])), FontDecision::Skip);
    assert_eq!(s.visit(false, &names(&["Lato"], &["Bold"], &[])), FontDecision::AddWithFamily);
    assert_eq!(s.visit(false, &names(&["Lato"], &["Bold"], &[])), FontDecision::Skip);
    assert_eq!(s.visit(false, &names(&[], &[], &["Lato Bold"])), FontDecision::AddWithFamily);

    let mut s = b.start_search(b"Lato-Bold").unwrap();
    assert_eq!(s.visit(false, &names(&["Lato"], &[], &[])), FontDecision::AddWithFamily);
    let mut s = b.start_search(b"-Bold").unwrap();
    assert_eq!(s.visit(false, &names(&[""], &[], &[])), FontDecision::Skip);
    let mut s = b.start_search(b"Lato").unwrap();
    assert_eq!(s.visit(false, &names(&["Lato"], &[], &[])), FontDecision::AddWithFamily);
}

#[test]
fn unmatched_search_caches_everything() {
    let mut b = backend();
    let mut s = b.start_search(b"Nothing").unwrap();
    assert_eq!(s.visit(false, &names(&["Lato"], &["Bold"], &["Lato Bold"])), FontDecision::Skip);
    assert!(b.end_scan(&mut s));
    assert!(b.cached_all());
    assert!(s.reads_names(true));
    assert_eq!(s.visit(true, &names(&["Lato"], &[], &[])), FontDecision::Add);
    assert!(!b.end_scan(&mut s));
    assert!(b.start_search(b"Lato").is_none());
}

#[test]
fn matched_search_does_not_rescan() {
    let mut b = backend();
    let mut s = b.start_search(b"Lato").unwrap();
    assert_eq!(s.visit(false, &names(&["Lato"], &[], &[])), FontDecision::AddWithFamily);
    assert!(!b.end_scan(&mut s));
    assert!(!b.cached_all());
}

#[test]
fn family_members() {
    let wanted = vec![b"Lato".to_vec(), b"Lato Light".to_vec()];
    assert!(is_family_member(&wanted, false, &names(&["Other", "Lato"], &[], &[])));
    assert!(!is_family_member(&wanted, true, &names(&["Lato"], &[], &[])));
    assert!(!is_family_member(&wanted, false, &names(&["Latoo"], &[], &[])));
    assert!(!is_family_member(&vec![], false, &names(&["Lato"], &[], &[])));
}

fn one_record_face(rec: Option<SfntNameRecord>) -> Option<FaceNameData> {
    Some(FaceNameData {
        ps_name: Some(b"P".to_vec()),
        is_sfnt: true,
        records: vec![rec],
        family_name: None,
        style_name: None,
    })
}

#[test]
fn surrogate_pairs_in_utf16_records() {
    let pair = read_names_checked(&one_record_face(record(3, 1, 0x409, 1, vec![0xD8, 0x01, 0xDC, 0x37])));
    assert_eq!(pair.unwrap().family_names, vec!["\u{10437}".as_bytes().to_vec()]);
    let lone_high = one_record_face(record(3, 1, 0x409, 1, vec![0xD8, 0x01, 0x00, 0x61]));
    assert!(read_names_checked(&lone_high).is_none());
    let lone_low = one_record_face(record(0, 3, 0, 2, vec![0x00, 0x61, 0xDC, 0x37]));
    assert!(read_names_checked(&lone_low).is_none());
    let trailing_high = one_record_face(record(3, 1, 0x409, 4, vec![0x00, 0x61, 0xD8, 0x01]));
    assert!(read_names_checked(&trailing_high).is_none());
}

#[test]
fn mac_roman_records_always_decode() {
    let ascii = read_names(&one_record_face(record(1, 0, 0, 4, b"Times Roman".to_vec())));
    assert_eq!(ascii.full_names, vec![b"Times Roman".to_vec()]);
    let high = read_names(&one_record_face(record(1, 0, 0, 2, vec![0xA5, 0xFF])));
    assert_eq!(high.style_names, vec!["•ˇ".as_bytes().to_vec()]);
    let nul = one_record_face(record(1, 0, 0, 1, vec![b'A', 0x00]));
    assert!(read_names_checked(&nul).is_none());
}

#[test]
fn font_extension_follows_the_last_dot() {
    assert!(!is_font_file("/fonts/.ttf"));
    assert!(is_font_file("/fonts/.hidden.ttf"));
    assert!(is_font_file("/fonts/a.b.TtF"));
    assert!(!is_font_file("/fonts/a.ttf.bak"));
    assert!(!is_font_file("/fonts/a.ttf/.."));
}

#[test]
fn search_runs_at_most_two_scans() {
    let mut b = backend();
    let faces = [
        (false, names(&["Lato"], &["Bold"], &["Lato Bold"])),
        (false, names(&["Fira"], &[], &["Fira Sans"])),
    ];
    let mut s = b.start_search(b"Missing").unwrap();
    for (mapped, n) in faces.iter() {
        assert_eq!(s.visit(*mapped, n), FontDecision::Skip);
    }
    assert!(b.end_scan(&mut s));
    for (_, n) in faces.iter() {
        assert_eq!(s.visit(true, n), FontDecision::Add);
    }
    assert!(!b.end_scan(&mut s));
    assert!(b.cached_all());
    assert_eq!(b.all_fonts().len(), 2);
    assert!(!b.end_scan(&mut s));
    assert!(b.cached_all());
}
