use libdl::state::{
    frame_inline_state, framed_file_len, locate_inline_state, may_hold_state, MAX_METADATA_SIZE,
    METADATA_FOOTER_SIZE, METADATA_LEN_SIZE, METADATA_MAGIC,
};
use libdl::{DlError, DownloadKind, InlineDownloadState};
use serde_json::Value;

fn record_bytes(state: &InlineDownloadState) -> Vec<u8> {
    let mut map = serde_json::Map::new();
    map.insert("source".to_string(), Value::from(state.source.clone()));
    map.insert("total_size".to_string(), Value::from(state.total_size));
    map.insert(
        "completed_chunks".to_string(),
        Value::from(state.completed_chunks.clone()),
    );
    serde_json::to_vec(&Value::Object(map)).unwrap()
}

fn read_record(file: &[u8]) -> libdl::Result<Option<Vec<u8>>> {
    let len = file.len() as u64;
    if !may_hold_state(len) {
        return Ok(None);
    }
    let footer = &file[file.len() - METADATA_FOOTER_SIZE as usize..];
    let place = locate_inline_state(len, footer)?;
    Ok(place.map(|(start, len)| file[start as usize..(start + len) as usize].to_vec()))
}

fn write_record(file: &mut Vec<u8>, total_size: u64, record: Vec<u8>) -> libdl::Result<()> {
    let frame = frame_inline_state(record)?;
    file.truncate(total_size as usize);
    file.extend_from_slice(&frame);
    assert_eq!(file.len() as u64, framed_file_len(total_size, frame.len()));
    Ok(())
}

#[test]
fn writes_reads_and_clears_inline_state() {
    let mut file = b"payload".to_vec();

    let state = InlineDownloadState::new(
        DownloadKind::Http,
        "https://example.com/file.bin".to_string(),
        7,
        2,
        vec![true, false, true, false],
        Some("etag".to_string()),
        None,
    );

    write_record(&mut file, 7, record_bytes(&state)).unwrap();
    let loaded: Value = serde_json::from_slice(&read_record(&file).unwrap().unwrap()).unwrap();
    assert_eq!(loaded["source"], Value::from(state.source.clone()));
    assert_eq!(
        loaded["completed_chunks"],
        Value::from(state.completed_chunks.clone())
    );

    file.truncate(7);
    assert_eq!(file.len(), 7);
    assert!(read_record(&file).unwrap().is_none());
}

#[test]
fn frame_is_record_length_and_mark() {
    assert_eq!(&METADATA_MAGIC, b"DL-METADATA\0");
    assert_eq!(METADATA_LEN_SIZE + METADATA_MAGIC.len() as u64, METADATA_FOOTER_SIZE);
    let frame = frame_inline_state(b"ab".to_vec()).unwrap();
    assert_eq!(&frame[..], b"ab\0\0\0\0\0\0\0\x02DL-METADATA\0");
    let long = frame_inline_state(vec![7; 0x1234]).unwrap();
    assert_eq!(&long[0x1234..0x1234 + 8], &0x1234_u64.to_be_bytes());
}

#[test]
fn later_record_takes_the_place_of_an_earlier_one() {
    let mut file = b"payload".to_vec();
    write_record(&mut file, 7, b"a longer first record".to_vec()).unwrap();
    write_record(&mut file, 7, b"second".to_vec()).unwrap();
    assert_eq!(read_record(&file).unwrap().unwrap(), b"second");
    assert_eq!(&file[..7], b"payload");
}

#[test]
fn short_and_unmarked_files_have_no_record() {
    assert!(!may_hold_state(19));
    assert!(may_hold_state(20));
    assert!(read_record(b"").unwrap().is_none());
    assert!(read_record(&[0; 40]).unwrap().is_none());
    let mut marked = vec![0; 30];
    marked.extend_from_slice(b"DL-METADATA\x01");
    assert!(read_record(&marked).unwrap().is_none());
}

fn with_length(before: usize, len: u64) -> Vec<u8> {
    let mut file = vec![0; before];
    file.extend_from_slice(&len.to_be_bytes());
    file.extend_from_slice(&METADATA_MAGIC);
    file
}

#[test]
fn length_that_does_not_fit_is_an_error() {
    for len in [0, 6, MAX_METADATA_SIZE + 1, u64::MAX] {
        let error = read_record(&with_length(5, len)).unwrap_err();
        assert!(matches!(error, DlError::InvalidState(_)));
        assert_eq!(
            error.to_text(),
            format!("下载状态无效：内嵌元数据长度 {len} 与文件长度 25 不匹配")
        );
    }
    assert_eq!(read_record(&with_length(5, 5)).unwrap().unwrap(), vec![0; 5]);
}

#[test]
fn record_may_not_grow_without_end() {
    let largest = MAX_METADATA_SIZE as usize;
    assert!(frame_inline_state(vec![1; largest]).is_ok());
    let error = frame_inline_state(vec![1; largest + 1]).unwrap_err();
    assert_eq!(
        error.to_text(),
        "下载状态无效：内嵌元数据超过最大大小：16777217 字节"
    );
}
