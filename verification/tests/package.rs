use etle::crypto::hash::FileId;
use etle::file::error::FileError;
use etle::file::package::{directory_layout, package_chunks, relative_package_path, single_file_layout, sort_package_inputs, PackageInputFile};

fn input(path: &str, size: u64) -> PackageInputFile {
    PackageInputFile { source_path: path.to_string(), size, blake3_hash: FileId([size as u8; 32]) }
}

#[test]
fn collects_directory_files_with_stable_offsets() {
    let inputs = vec![input("/tmp/package-layout/b.txt", 2), input("/tmp/package-layout/nested/c.txt", 1), input("/tmp/package-layout/a.txt", 3)];
    let layout = directory_layout("/tmp/package-layout", sort_package_inputs(inputs)).unwrap();
    let files = layout.descriptor_files();

    assert_eq!(layout.total_size, 6);
    assert_eq!(files[0].path, "a.txt");
    assert_eq!(files[0].offset, 0);
    assert_eq!(files[1].path, "b.txt");
    assert_eq!(files[1].offset, 3);
    assert_eq!(files[2].path, "nested/c.txt");
    assert_eq!(files[2].offset, 5);
}

#[test]
fn package_chunks_cross_file_boundaries() {
    let chunks = package_chunks(&[b"abc".to_vec(), b"defg".to_vec()], 4).unwrap();

    assert_eq!(chunks.len(), 2);
    assert_eq!(chunks[0].index, 0);
    assert_eq!(chunks[0].data, b"abcd");
    assert_eq!(chunks[1].index, 1);
    assert_eq!(chunks[1].data, b"efg");
}

#[test]
fn package_chunks_refuse_zero_size_and_skip_empty_files() {
    assert!(matches!(package_chunks(&[b"abc".to_vec()], 0), Err(FileError::InvalidChunkSize(0))));
    let chunks = package_chunks(&[Vec::new(), b"ab".to_vec(), Vec::new(), b"cd".to_vec()], 2).unwrap();
    assert_eq!(chunks.len(), 2);
    assert_eq!(chunks[1].data, b"cd");
}

#[test]
fn empty_directory_is_refused() {
    assert!(matches!(directory_layout("/tmp/empty", Vec::new()), Err(FileError::EmptyPackage)));
}

#[test]
fn path_outside_root_is_refused() {
    match relative_package_path("/tmp/root", "/var/other.txt") {
        Err(FileError::PathOutsideRoot { path, root }) => {
            assert_eq!(path, "/var/other.txt");
            assert_eq!(root, "/tmp/root");
        }
        other => panic!("unexpected {other:?}"),
    }
    assert_eq!(relative_package_path("/tmp/root", "/tmp/root/x/y.txt").unwrap(), "x/y.txt");
}

#[test]
fn offsets_saturate() {
    let inputs = vec![input("/r/a", u64::MAX), input("/r/b", 5), input("/r/c", 1)];
    let layout = directory_layout("/r", inputs).unwrap();

    assert_eq!(layout.files[1].entry.offset, u64::MAX);
    assert_eq!(layout.files[2].entry.offset, u64::MAX);
    assert_eq!(layout.total_size, u64::MAX);
}

#[test]
fn single_file_package() {
    let layout = single_file_layout("/data/movie.mkv", 10, FileId([1_u8; 32]));

    assert_eq!(layout.name, "movie.mkv");
    assert_eq!(layout.total_size, 10);
    assert_eq!(layout.files.len(), 1);
    assert_eq!(layout.files[0].entry.path, "movie.mkv");
    assert_eq!(layout.files[0].source_path, "/data/movie.mkv");
}

#[test]
fn package_inputs_sort_by_path_components() {
    let inputs = vec![input("/r/b/x", 1), input("/r/a.txt", 2), input("/r/a", 3), input("/r/a/z", 4), input("/r/B", 5)];
    let sorted: Vec<String> = sort_package_inputs(inputs).into_iter().map(|f| f.source_path).collect();
    assert_eq!(sorted, vec!["/r/B", "/r/a", "/r/a/z", "/r/a.txt", "/r/b/x"]);
}

#[test]
fn relative_path_of_the_root_itself_is_empty() {
    assert_eq!(relative_package_path("/tmp/root", "/tmp/root").unwrap(), "");
    assert_eq!(relative_package_path("lib", "lib/a/b").unwrap(), "a/b");
    assert!(relative_package_path("/tmp/ro", "/tmp/root/x").is_err());
}
