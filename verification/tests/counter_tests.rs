use gitstatus::counter::count_files;
use gitstatus::invoker::CommandError;

#[test]
fn count_files_counts_the_listed_paths() {
    assert_eq!(count_files(&Ok("a.txt".to_string())), Ok(1));
    assert_eq!(count_files(&Ok("a.txt\nb.txt\nsrc/c.rs".to_string())), Ok(3));
}

#[test]
fn count_files_of_an_empty_listing_is_zero() {
    assert_eq!(count_files(&Ok(String::new())), Ok(0));
}

#[test]
fn count_files_hands_a_failure_on() {
    assert_eq!(count_files(&Err(CommandError::Unsuccessful)), Err(CommandError::Unsuccessful));
    assert_eq!(count_files(&Err(CommandError::NotRun)), Err(CommandError::NotRun));
}

#[test]
fn count_files_counts_paths_with_spaces_once() {
    assert_eq!(count_files(&Ok("my file.txt\nother  file".to_string())), Ok(2));
}

#[test]
fn count_files_of_many_paths() {
    let mut listing = String::new();
    for i in 0..1000 {
        if i > 0 {
            listing.push('\n');
        }
        listing.push_str(&format!("dir/file{}.txt", i));
    }
    assert_eq!(count_files(&Ok(listing)), Ok(1000));
}
