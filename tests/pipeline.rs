use ripgrep_all::adapters::{
    ends_with_extension, get_adapters_filtered, match_adapter, AdapterMetadata, FileMatcher,
    FileMeta,
};
use ripgrep_all::caching::CachingReader;
use ripgrep_all::cache_key::{compute_cache_key, db_name, KeyError};
use ripgrep_all::preproc::{
    cache_write, choose_adapter, detect_mimetype, on_cache_lookup, rga_preproc,
    run_adapter_recursively, AdaptInfo, CachePlan, Next, PreprocError, RgaConfig, Step,
};
use async_compression::tokio::bufread::ZstdDecoder;
use async_compression::tokio::write::ZstdEncoder;
use std::collections::HashMap;
use tokio::io::{AsyncReadExt, AsyncWriteExt};

fn adapter(name: &str, version: i32, recurses: bool, exts: &[&str], mimes: &[&str]) -> AdapterMetadata {
    AdapterMetadata {
        name: name.to_string(),
        version,
        recurses,
        extensions: exts.iter().map(|e| e.to_string()).collect(),
        mimetypes: mimes.iter().map(|m| m.to_string()).collect(),
    }
}

fn registry() -> Vec<AdapterMetadata> {
    vec![
        adapter("zip", 1, true, &["zip", "jar"], &["application/zip"]),
        adapter("pdf", 3, false, &["pdf"], &["application/pdf"]),
        adapter("gz", 2, true, &["gz", "tgz"], &["application/gzip"]),
    ]
}

fn config(accurate: bool) -> RgaConfig {
    RgaConfig {
        accurate,
        adapters: vec![],
        max_archive_recursion: 4,
        cache_max_blob_len: 2_000_000,
        cache_compression_level: 12,
        cache_enabled: true,
    }
}

fn info(path: &str, real: bool, depth: i32) -> AdaptInfo {
    AdaptInfo {
        filepath_hint: path.to_string(),
        is_real_file: real,
        line_prefix: "outer.zip: ".to_string(),
        archive_recursion_depth: depth,
        postprocess: false,
    }
}

fn le_str(s: &str) -> Vec<u8> {
    let mut v = (s.len() as u64).to_le_bytes().to_vec();
    v.extend_from_slice(s.as_bytes());
    v
}

#[test]
fn extension_matching() {
    assert!(ends_with_extension("report.pdf", "pdf"));
    assert!(!ends_with_extension("pdf", "pdf"));
    assert!(!ends_with_extension("reportpdf", "pdf"));
    assert!(ends_with_extension(".pdf", "pdf"));
    assert!(!ends_with_extension("report.pdf.txt", "pdf"));
}

#[test]
fn filter_empty_allowlist_keeps_all_in_order() {
    let reg = registry();
    assert_eq!(get_adapters_filtered(&reg, &vec![]).ok(), Some(vec![0, 1, 2]));
}

#[test]
fn filter_keeps_allowlist_order() {
    let reg = registry();
    let allow = vec!["gz".to_string(), "zip".to_string()];
    assert_eq!(get_adapters_filtered(&reg, &allow).ok(), Some(vec![2, 0]));
}

#[test]
fn filter_unknown_name_is_error() {
    let reg = registry();
    let allow = vec!["zip".to_string(), "rar".to_string()];
    assert_eq!(get_adapters_filtered(&reg, &allow).err(), Some("rar".to_string()));
}

#[test]
fn fast_match_by_extension() {
    let reg = registry();
    let meta = FileMeta { mimetype: None, lossy_filename: "a.tgz".to_string() };
    match match_adapter(&reg, &vec![0, 1, 2], &meta) {
        Some((2, FileMatcher::Fast(e))) => assert_eq!(e, "tgz"),
        _ => panic!("expected the gz adapter"),
    }
}

#[test]
fn accurate_match_prefers_mimetype() {
    let reg = registry();
    let meta = FileMeta {
        mimetype: Some("application/pdf".to_string()),
        lossy_filename: "a.zip".to_string(),
    };
    match match_adapter(&reg, &vec![0, 1, 2], &meta) {
        Some((1, FileMatcher::Accurate(m))) => assert_eq!(m, "application/pdf"),
        _ => panic!("expected the pdf adapter"),
    }
}

#[test]
fn accurate_match_falls_back_to_extension() {
    let reg = registry();
    let meta = FileMeta {
        mimetype: Some("text/plain".to_string()),
        lossy_filename: "a.zip".to_string(),
    };
    assert!(matches!(match_adapter(&reg, &vec![0, 1, 2], &meta), Some((0, FileMatcher::Fast(_)))));
}

#[test]
fn inactive_adapter_never_matches() {
    let reg = registry();
    let meta = FileMeta { mimetype: None, lossy_filename: "a.pdf".to_string() };
    assert!(match_adapter(&reg, &vec![0, 2], &meta).is_none());
}

#[test]
fn namespace_format() {
    let reg = registry();
    assert_eq!(db_name(&reg[1]), "pdf.v3");
    assert_eq!(db_name(&adapter("x", 120, false, &[], &[])), "x.v120");
    assert_eq!(db_name(&adapter("x", -7, false, &[], &[])), "x.v-7");
    assert_eq!(db_name(&adapter("x", i32::MIN, false, &[], &[])), "x.v-2147483648");
}

#[test]
fn version_bump_changes_namespace() {
    let a = adapter("pdf", 3, false, &[], &[]);
    let b = adapter("pdf", 4, false, &[], &[]);
    assert_ne!(db_name(&a), db_name(&b));
}

#[test]
fn plain_key_bytes_are_bincode_tuple() {
    let reg = registry();
    let key = compute_cache_key(&"dir/./sub/../doc.pdf".to_string(), Some((1000, 5)), &reg[1], &reg, &vec![0, 1, 2]);
    let mut expected = le_str("pdf");
    expected.extend_from_slice(&3i32.to_le_bytes());
    expected.extend(le_str("dir/doc.pdf"));
    expected.extend_from_slice(&1000u64.to_le_bytes());
    expected.extend_from_slice(&5u32.to_le_bytes());
    assert_eq!(key.ok(), Some(expected));
}

#[test]
fn roster_key_bytes_are_bincode_tuple() {
    let reg = registry();
    let key = compute_cache_key(&"a.zip".to_string(), Some((7, 9)), &reg[0], &reg, &vec![0, 2]);
    let mut expected = 2u64.to_le_bytes().to_vec();
    expected.extend(le_str("zip"));
    expected.extend_from_slice(&1i32.to_le_bytes());
    expected.extend(le_str("gz"));
    expected.extend_from_slice(&2i32.to_le_bytes());
    expected.extend(le_str("a.zip"));
    expected.extend_from_slice(&7u64.to_le_bytes());
    expected.extend_from_slice(&9u32.to_le_bytes());
    assert_eq!(key.ok(), Some(expected));
}

#[test]
fn missing_mtime_is_metadata_error() {
    let reg = registry();
    match compute_cache_key(&"a.pdf".to_string(), None, &reg[1], &reg, &vec![1]) {
        Err(KeyError::MetadataUnavailable(p)) => assert_eq!(p, "a.pdf"),
        _ => panic!("expected a metadata error"),
    }
}

#[test]
fn plain_key_ignores_other_adapters() {
    let reg = registry();
    let p = "a.pdf".to_string();
    let k1 = compute_cache_key(&p, Some((1, 2)), &reg[1], &reg, &vec![0, 1, 2]).ok();
    let k2 = compute_cache_key(&p, Some((1, 2)), &reg[1], &reg, &vec![1]).ok();
    assert!(k1.is_some());
    assert_eq!(k1, k2);
}

#[test]
fn roster_key_depends_on_other_adapters() {
    let reg = registry();
    let p = "a.zip".to_string();
    let k1 = compute_cache_key(&p, Some((1, 2)), &reg[0], &reg, &vec![0, 1, 2]).ok();
    let k2 = compute_cache_key(&p, Some((1, 2)), &reg[0], &reg, &vec![0, 2]).ok();
    assert!(k1.is_some() && k2.is_some());
    assert_ne!(k1, k2);
}

#[test]
fn equivalent_paths_share_a_key() {
    let reg = registry();
    let k1 = compute_cache_key(&"x/y/../a.pdf".to_string(), Some((1, 2)), &reg[1], &reg, &vec![1]).ok();
    let k2 = compute_cache_key(&"x//./a.pdf".to_string(), Some((1, 2)), &reg[1], &reg, &vec![1]).ok();
    assert_eq!(k1, k2);
}

#[test]
fn passthrough_for_unmatched_archive_member() {
    let reg = registry();
    let r = rga_preproc(&config(false), &reg, &info("outer.zip/notes.txt", false, 1), None);
    assert!(matches!(r, Ok(Step::Passthrough)));
}

#[test]
fn passthrough_for_unmatched_file_in_accurate_mode() {
    let reg = registry();
    let r = rga_preproc(&config(true), &reg, &info("notes.txt", true, 0), Some("text/plain".to_string()));
    assert!(matches!(r, Ok(Step::Passthrough)));
}

#[test]
fn unmatched_real_file_fails_naming_it() {
    let reg = registry();
    match rga_preproc(&config(false), &reg, &info("docs/notes.txt", true, 0), None) {
        Err(PreprocError::NoAdapterFound(n)) => assert_eq!(n, "notes.txt"),
        _ => panic!("expected NoAdapterFound"),
    }
}

#[test]
fn empty_filename_is_error() {
    let reg = registry();
    assert!(matches!(rga_preproc(&config(false), &reg, &info("/", true, 0), None), Err(PreprocError::EmptyFilename)));
}

#[test]
fn unknown_allowlisted_adapter_is_error() {
    let reg = registry();
    let mut c = config(false);
    c.adapters = vec!["rar".to_string()];
    match rga_preproc(&c, &reg, &info("a.zip", true, 0), None) {
        Err(PreprocError::UnknownAdapter(n)) => assert_eq!(n, "rar"),
        _ => panic!("expected UnknownAdapter"),
    }
}

#[test]
fn recursion_limit_cuts_branch() {
    let reg = registry();
    match rga_preproc(&config(false), &reg, &info("inner.zip", false, 5), None) {
        Ok(Step::RecursionLimit(m)) => assert_eq!(m, "outer.zip: [rga: max archive recursion reached]"),
        _ => panic!("expected the recursion marker"),
    }
    assert!(matches!(
        rga_preproc(&config(false), &reg, &info("inner.zip", false, 4), None),
        Ok(Step::Adapt { adapter: 0, .. })
    ));
}

#[test]
fn nested_archives_stop_at_the_limit() {
    let reg = registry();
    let mut depth = 0;
    loop {
        match rga_preproc(&config(false), &reg, &info("bomb.zip", depth > 0, depth), None) {
            Ok(Step::Adapt { .. }) => depth += 1,
            Ok(Step::RecursionLimit(_)) => break,
            _ => panic!("unexpected step"),
        }
        assert!(depth <= 5);
    }
    assert_eq!(depth, 5);
}

#[test]
fn choose_adapter_ignores_mimetype_in_fast_mode() {
    let reg = registry();
    let r = choose_adapter(&config(false), &reg, &"a.zip".to_string(), Some("application/pdf".to_string()));
    assert!(matches!(r, Ok(Some((0, FileMatcher::Fast(_), _)))));
}

#[test]
fn mimetype_sniffed_only_when_accurate() {
    assert!(detect_mimetype(false, b"%PDF-1.4\n").is_none());
    let m = detect_mimetype(true, b"%PDF-1.4\n");
    assert!(m.is_some());
}

#[test]
fn uncached_for_archive_members() {
    let reg = registry();
    let plan = run_adapter_recursively(&config(false), &reg, &info("a.zip/b.pdf", false, 1), 1, &vec![0, 1, 2], None);
    assert!(matches!(plan, Ok(CachePlan::Uncached)));
    let mut c = config(false);
    c.cache_enabled = false;
    let plan = run_adapter_recursively(&c, &reg, &info("b.pdf", true, 0), 1, &vec![0, 1, 2], Some((1, 1)));
    assert!(matches!(plan, Ok(CachePlan::Uncached)));
}

#[test]
fn real_file_without_mtime_fails() {
    let reg = registry();
    let plan = run_adapter_recursively(&config(false), &reg, &info("b.pdf", true, 0), 1, &vec![1], None);
    assert!(matches!(plan, Err(PreprocError::MetadataUnavailable(p)) if p == "b.pdf"));
}

#[test]
fn caching_reader_keeps_output_within_bound() {
    let mut r = CachingReader::new(10);
    r.on_data(100, &[1, 2, 3]);
    r.on_data(50, &[4, 5]);
    let (n, blob) = r.finish(&[6]);
    assert_eq!(n, 150);
    assert_eq!(blob, Some(vec![1, 2, 3, 4, 5, 6]));
}

#[test]
fn caching_reader_drops_output_over_bound() {
    let mut r = CachingReader::new(4);
    r.on_data(10, &[1, 2, 3]);
    r.on_data(10, &[4, 5]);
    r.on_data(10, &[]);
    let (n, blob) = r.finish(&[]);
    assert_eq!(n, 30);
    assert_eq!(blob, None);
}

#[test]
fn caching_reader_bound_is_inclusive() {
    let mut r = CachingReader::new(3);
    r.on_data(1, &[1, 2]);
    let (_, blob) = r.finish(&[3]);
    assert_eq!(blob, Some(vec![1, 2, 3]));
}

#[test]
fn no_entry_without_completion_data() {
    assert!(cache_write(Some(("pdf.v3".to_string(), vec![1])), None).is_none());
    assert!(cache_write(None, Some(vec![1])).is_none());
    let w = cache_write(Some(("pdf.v3".to_string(), vec![1])), Some(vec![9])).unwrap();
    assert_eq!((w.db_name, w.key, w.blob), ("pdf.v3".to_string(), vec![1], vec![9]));
}

#[test]
fn second_run_hits_cache() {
    let reg = registry();
    let c = config(false);
    let ai = info("b.pdf", true, 0);
    let mut store: HashMap<(String, Vec<u8>), Vec<u8>> = HashMap::new();
    let mut runs = 0;
    let mut outputs = Vec::new();
    for _ in 0..2 {
        let plan = run_adapter_recursively(&c, &reg, &ai, 1, &vec![0, 1, 2], Some((5, 6))).ok().unwrap();
        let hit = match &plan {
            CachePlan::Cached { db_name, key } => store.get(&(db_name.clone(), key.clone())).cloned(),
            CachePlan::Uncached => None,
        };
        match on_cache_lookup(plan, hit) {
            Next::DecodeCached(blob) => outputs.push(blob),
            Next::RunAdapter(write_back) => {
                runs += 1;
                let mut r = CachingReader::new(c.cache_max_blob_len);
                r.on_data(5, b"hello");
                let (_, compressed) = r.finish(b"");
                outputs.push(b"hello".to_vec());
                if let Some(w) = cache_write(write_back, compressed) {
                    store.insert((w.db_name, w.key), w.blob);
                }
            }
        }
    }
    assert_eq!(runs, 1);
    assert_eq!(outputs[0], outputs[1]);
}

#[test]
fn stored_blob_decodes_to_adapter_output() {
    let rt = tokio::runtime::Builder::new_current_thread().build().unwrap();
    rt.block_on(async {
        let output: Vec<u8> = (0..5000u32).flat_map(|i| format!("line {}\n", i).into_bytes()).collect();
        let mut reader = CachingReader::new(1_000_000);
        let mut enc = ZstdEncoder::new(Vec::new());
        for part in output.chunks(777) {
            enc.write_all(part).await.unwrap();
            let chunk = std::mem::take(enc.get_mut());
            reader.on_data(part.len() as u64, &chunk);
        }
        enc.shutdown().await.unwrap();
        let tail = std::mem::take(enc.get_mut());
        let (n, blob) = reader.finish(&tail);
        assert_eq!(n, output.len() as u64);
        let blob = blob.unwrap();
        let mut dec = ZstdDecoder::new(std::io::Cursor::new(blob));
        let mut back = Vec::new();
        dec.read_to_end(&mut back).await.unwrap();
        assert_eq!(back, output);
    });
}

#[test]
fn unmatched_real_file_at_the_limit_still_fails() {
    let reg = registry();
    match rga_preproc(&config(false), &reg, &info("notes.txt", true, 4), None) {
        Err(PreprocError::NoAdapterFound(n)) => assert_eq!(n, "notes.txt"),
        _ => panic!("expected NoAdapterFound"),
    }
}

#[test]
fn new_mtime_or_version_gives_new_key() {
    let reg = registry();
    let p = "a.pdf".to_string();
    let k1 = compute_cache_key(&p, Some((1, 2)), &reg[1], &reg, &vec![1]).ok();
    let k2 = compute_cache_key(&p, Some((1, 3)), &reg[1], &reg, &vec![1]).ok();
    let bumped = adapter("pdf", 4, false, &["pdf"], &[]);
    let k3 = compute_cache_key(&p, Some((1, 2)), &bumped, &reg, &vec![1]).ok();
    assert!(k1.is_some() && k2.is_some() && k3.is_some());
    assert_ne!(k1, k2);
    assert_ne!(k1, k3);
}
