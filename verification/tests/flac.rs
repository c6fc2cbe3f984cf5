use sahne_fs::flac::FlacFile;

#[test]
fn test_flac_file_new_std() {
    let mut tag = metaflac::Tag::new();
    tag.set_vorbis("TITLE", vec!["Test Title"]);
    tag.set_vorbis("ARTIST", vec!["Test Artist"]);
    tag.set_vorbis("ALBUM", vec!["Test Album"]);
    tag.set_vorbis("TRACKNUMBER", vec!["5"]);

    let flac_file = FlacFile::from_tag("test.flac".to_string(), &tag);

    assert_eq!(flac_file.path, "test.flac".to_string());
    assert_eq!(flac_file.title, Some(String::from("Test Title")));
    assert_eq!(flac_file.artist, Some(String::from("Test Artist")));
    assert_eq!(flac_file.album, Some(String::from("Test Album")));
    assert_eq!(flac_file.track_number, Some(5));
}

#[test]
fn flac_without_comments_has_no_metadata() {
    let tag = metaflac::Tag::new();
    let flac_file = FlacFile::from_tag("a.flac".to_string(), &tag);
    assert_eq!(flac_file.title, None);
    assert_eq!(flac_file.artist, None);
    assert_eq!(flac_file.album, None);
    assert_eq!(flac_file.track_number, None);
}

#[test]
fn flac_first_value_and_bad_track_number() {
    let mut tag = metaflac::Tag::new();
    tag.set_vorbis("TITLE", vec!["First", "Second"]);
    tag.set_vorbis("TRACKNUMBER", vec!["five"]);
    let flac_file = FlacFile::from_tag("b.flac".to_string(), &tag);
    assert_eq!(flac_file.title, Some("First".to_string()));
    assert_eq!(flac_file.artist, None);
    assert_eq!(flac_file.track_number, None);
}
