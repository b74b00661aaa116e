use llama_tune::download::{
    download_dir, download_file_name, download_step, partial_file_name, DownloadStep, Progress,
    StreamItem,
};
use llama_tune::installed::repo_folder;

#[test]
fn downloads_go_where_the_cache_is_scanned() {
    assert_eq!(
        download_dir("org/repo"),
        vec!["models--org--repo".to_string(), "snapshots".to_string(), "download".to_string()]
    );
    assert_eq!(download_dir("a/b")[0], repo_folder("a/b"));
}

#[test]
fn file_names_come_from_the_url() {
    assert_eq!(
        download_file_name("https://huggingface.co/o/r/resolve/main/sub/r-Q4_0.gguf"),
        "r-Q4_0.gguf"
    );
    assert_eq!(download_file_name("nothing"), "nothing");
    assert_eq!(download_file_name("ends/"), "");
    assert_eq!(partial_file_name("r-Q4_0.gguf"), "r-Q4_0.gguf.part");
}

#[test]
fn pieces_are_written_until_the_end() {
    assert!(matches!(download_step(false, &StreamItem::Chunk), DownloadStep::Write));
    assert!(matches!(download_step(false, &StreamItem::Failure), DownloadStep::Fail));
    assert!(matches!(download_step(false, &StreamItem::End), DownloadStep::Complete));
}

#[test]
fn a_request_to_cancel_is_always_met() {
    for item in [StreamItem::Chunk, StreamItem::Failure, StreamItem::End] {
        assert!(matches!(download_step(true, &item), DownloadStep::Discard));
    }
}

#[test]
fn progress_counts_the_bytes() {
    let mut p = Progress::start(Some(10));
    p.advance(4);
    p.advance(0);
    p.advance(5);
    assert_eq!((p.downloaded, p.total), (9, Some(10)));
    assert_eq!(Progress::start(None).total, None);
}
