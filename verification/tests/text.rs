use musing::model::playlist::{remove_line, songs_of_playlist, Playlist};
use musing::text::{lines, parse_i32, push_decimal, string_of};

#[test]
fn lines_split_like_str_lines() {
    assert_eq!(lines("a\nb\r\n\nc"), vec!["a", "b", "", "c"]);
    assert_eq!(lines("a\n"), vec!["a"]);
    assert_eq!(lines("a\r"), vec!["a\r"]);
    assert!(lines("").is_empty());
    assert_eq!(lines("\n"), vec![""]);
    let s = "x\ny\r\nz\n\n w";
    let expected: Vec<String> = s.lines().map(String::from).collect();
    assert_eq!(lines(s), expected);
}

#[test]
fn decimal_numbers() {
    let mut s = String::from("id ");
    push_decimal(&mut s, 0);
    assert_eq!(s, "id 0");
    let mut s = String::new();
    push_decimal(&mut s, 2137);
    assert_eq!(s, "2137");
    let mut s = String::new();
    push_decimal(&mut s, u64::MAX);
    assert_eq!(s, u64::MAX.to_string());
    assert_eq!(parse_i32("-42"), Some(-42));
    assert_eq!(parse_i32("+7"), Some(7));
    assert_eq!(parse_i32("2147483648"), None);
    assert_eq!(parse_i32("-2147483648"), Some(i32::MIN));
    assert_eq!(parse_i32("1a"), None);
    assert_eq!(string_of(&vec!['a', 'b', 'c'], 2), "ab");
}

#[test]
fn playlists_skip_comments() {
    let content = "#EXTM3U\nsong_one.mp3\n# a comment\r\nsong_two.mp3\n";
    assert_eq!(songs_of_playlist(content), vec!["song_one.mp3", "song_two.mp3"]);
    let p = Playlist::from_content(content);
    assert_eq!(*p.inner(), vec!["song_one.mp3".to_string(), "song_two.mp3".to_string()]);
    assert!(songs_of_playlist("").is_empty());
}

#[test]
fn removing_a_playlist_line() {
    assert_eq!(remove_line("a\nb\nc\n", 1), "a\nc\n");
    assert_eq!(remove_line("a\nb\nc", 0), "b\nc\n");
    assert_eq!(remove_line("a\nb\n", 5), "a\nb\n");
    assert_eq!(remove_line("a\n", 0), "\n");
    assert_eq!(remove_line("", 0), "\n");
}
