use celestial::icosphere::{
    decompress_segment, draw_action, metadata_is_well_formed, metadata_path, parse_icosphere_metadata,
    parse_metadata_line, segment_file_path, Icosphere, IcosphereDrawAction,
};

fn summary(text: &str) -> Vec<(String, u32, Vec<String>)> {
    parse_icosphere_metadata(text)
        .into_iter()
        .map(|e| (e.name, e.global_index, e.center))
        .collect()
}

#[test]
fn metadata_entries_are_sorted_by_global_index() {
    let text = "1-2=0.5,1,2\n0-3=1,2,3\nnot an entry\n0-0=1,2\n1-0=a,b,c\r\n";
    assert!(metadata_is_well_formed(text));
    let entries = summary(text);
    assert_eq!(
        entries,
        vec![
            ("0-3".to_string(), 3, vec!["1".to_string(), "2".to_string(), "3".to_string()]),
            ("1-0".to_string(), 16, vec!["a".to_string(), "b".to_string(), "c".to_string()]),
            ("1-2".to_string(), 18, vec!["0.5".to_string(), "1".to_string(), "2".to_string()]),
        ]
    );
}

#[test]
fn metadata_sort_is_stable() {
    let text = "0-1=1,1,1\n0-0=0,0,0\n0-1=2,2,2\n";
    let entries = summary(text);
    assert_eq!(entries.len(), 3);
    assert_eq!(entries[0].1, 0);
    assert_eq!(entries[1].2[0], "1");
    assert_eq!(entries[2].2[0], "2");
}

#[test]
fn metadata_index_that_is_not_a_number_counts_as_zero() {
    let entries = summary("x-5=1,2,3\n2-x=1,2,3\n");
    assert_eq!(entries[0].1, 5);
    assert_eq!(entries[1].1, 32);
}

#[test]
fn metadata_skips_lines_of_other_shapes() {
    assert!(summary("a=b=c\n1-1=1,2,3,4\n\n").is_empty());
    assert!(summary("").is_empty());
}

#[test]
fn metadata_well_formedness() {
    assert!(metadata_is_well_formed("1-1=1,2,3"));
    assert!(metadata_is_well_formed("free text without separators"));
    assert!(!metadata_is_well_formed("abc=1,2,3"));
    assert!(!metadata_is_well_formed("300000000-0=1,2,3"));
    assert!(metadata_is_well_formed("268435455-15=1,2,3"));
}

#[test]
fn metadata_line_with_three_parts_in_name() {
    let line: Vec<char> = "1-2-3=4,5,6".chars().collect();
    let entry = parse_metadata_line(&line).unwrap();
    assert_eq!(entry.global_index, 18);
    assert_eq!(entry.name, "1-2-3");
}

#[test]
fn file_paths() {
    assert_eq!(metadata_path("media/earth"), "media/earth/metadata.ini");
    assert_eq!(segment_file_path("d", "0-1", 2), "d/0-1.l2.raw");
}

#[test]
fn draw_actions() {
    assert_eq!(draw_action(Some(2), 2), IcosphereDrawAction::Draw);
    assert_eq!(draw_action(Some(1), 2), IcosphereDrawAction::Reload);
    assert_eq!(draw_action(None, 3), IcosphereDrawAction::Load);
}

#[test]
fn draw_passes_load_then_draw() {
    let (draw, load, reload) =
        (IcosphereDrawAction::Draw, IcosphereDrawAction::Load, IcosphereDrawAction::Reload);
    let names = |v: &[&str]| v.iter().map(|s| s.to_string()).collect::<Vec<String>>();
    let mut segments = Icosphere::new();
    let abc = names(&["0-0", "0-1", "0-2"]);
    assert_eq!(segments.draw(&abc, &vec![1, 3, 2]), vec![load, load, load]);
    assert_eq!(segments.draw(&abc, &vec![1, 3, 2]), vec![draw, draw, draw]);
    assert_eq!(segments.draw(&names(&["0-0", "0-1"]), &vec![2, 3]), vec![reload, draw]);
    assert_eq!(
        segments.draw(&names(&["0-0", "0-1", "0-2", "0-3"]), &vec![2, 3, 2, 1]),
        vec![draw, draw, draw, load]
    );
    assert_eq!(segments.draw(&vec![], &vec![]), Vec::<IcosphereDrawAction>::new());
}

#[test]
fn segments_of_one_name_share_their_loaded_geometry() {
    let (draw, load, reload) =
        (IcosphereDrawAction::Draw, IcosphereDrawAction::Load, IcosphereDrawAction::Reload);
    let mut segments = Icosphere::new();
    let twice = vec!["1-1".to_string(), "1-1".to_string()];
    assert_eq!(segments.draw(&twice, &vec![2, 2]), vec![load, draw]);
    assert_eq!(segments.draw(&twice, &vec![3, 1]), vec![reload, reload]);
}

#[test]
fn segment_files_are_decompressed() {
    use_brotli_roundtrip(b"vertex data 0123456789 vertex data".to_vec());
    use_brotli_roundtrip(Vec::new());
}

fn use_brotli_roundtrip(data: Vec<u8>) {
    let mut compressed = Vec::new();
    {
        let mut writer = brotli::CompressorWriter::new(&mut compressed, 4096, 9, 22);
        std::io::Write::write_all(&mut writer, &data).unwrap();
    }
    assert_ne!(compressed, data);
    assert_eq!(decompress_segment(&compressed), Some(data));
}

#[test]
fn truncated_segment_file_is_refused() {
    let data = vec![7u8; 1000];
    let mut compressed = Vec::new();
    {
        let mut writer = brotli::CompressorWriter::new(&mut compressed, 4096, 9, 22);
        std::io::Write::write_all(&mut writer, &data).unwrap();
    }
    compressed.truncate(compressed.len() / 2);
    assert_eq!(decompress_segment(&compressed), None);
}
