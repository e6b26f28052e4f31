use winisland::json::Json;
use winisland::lyrics::{
    lyric_url, lyrics_from_response, parse_lyrics, parse_lyrics_checked, parse_time, parse_time_checked,
    search_url,
    song_id_from_search, url_encode, LyricLine,
};

fn pairs(lines: &[LyricLine]) -> Vec<(u64, String)> {
    lines.iter().map(|l| (l.time_ms, l.text.clone())).collect()
}

#[test]
fn time_with_hundredths() {
    assert_eq!(parse_time("01:02.50"), Some(62_500));
}

#[test]
fn time_with_tenths_and_thousandths() {
    assert_eq!(parse_time("00:10.5"), Some(10_500));
    assert_eq!(parse_time("00:10.123"), Some(10_123));
}

#[test]
fn time_with_long_fraction_is_cut_to_thousandths() {
    assert_eq!(parse_time("00:10.1234"), Some(10_123));
    assert_eq!(parse_time("00:10.99999"), Some(10_999));
}

#[test]
fn time_without_fraction() {
    assert_eq!(parse_time("00:10"), Some(10_000));
    assert_eq!(parse_time("3:00"), Some(180_000));
}

#[test]
fn time_with_colon_before_fraction() {
    assert_eq!(parse_time("00:10:50"), Some(10_500));
}

#[test]
fn time_fraction_ignores_non_digits() {
    assert_eq!(parse_time("1:2.x5"), Some(62_500));
    assert_eq!(parse_time("1:2."), Some(62_000));
}

#[test]
fn time_accepts_plus_sign() {
    assert_eq!(parse_time("+1:00.00"), Some(60_000));
}

#[test]
fn not_a_time() {
    assert_eq!(parse_time("ar:Someone"), None);
    assert_eq!(parse_time("10"), None);
    assert_eq!(parse_time(""), None);
    assert_eq!(parse_time("1:-2"), None);
}

#[test]
fn lyrics_sorted_by_time_with_empty_main_lines_kept() {
    let lrc = "[00:01.00]Hello\n[00:03.00]\n[00:02.00]World\n";
    let tlrc = "[00:01.00]Bonjour\n";
    let lines = parse_lyrics(lrc, tlrc);
    assert_eq!(
        pairs(&lines),
        vec![(1000, "Hello".to_string()), (2000, "World".to_string()), (3000, String::new())]
    );
}

#[test]
fn translation_fills_an_empty_time() {
    let lines = parse_lyrics("[00:01.00]\n", "[00:01.00]Hi");
    assert_eq!(pairs(&lines), vec![(1000, "Hi".to_string())]);
}

#[test]
fn first_non_empty_text_wins() {
    let lines = parse_lyrics("[00:01.00]One\n[00:01.00]Two", "");
    assert_eq!(pairs(&lines), vec![(1000, "One".to_string())]);
}

#[test]
fn empty_translation_lines_are_dropped() {
    let lines = parse_lyrics("[00:01.00]A", "[00:05.00]\n");
    assert_eq!(pairs(&lines), vec![(1000, "A".to_string())]);
}

#[test]
fn translation_equal_to_main_keeps_empty_lines() {
    let lines = parse_lyrics("[00:04.00]\n", "[00:04.00]\n");
    assert_eq!(pairs(&lines), vec![(4000, String::new())]);
}

#[test]
fn several_tags_on_one_line() {
    let lines = parse_lyrics("[00:01.00][00:05.00] Chorus ", "");
    assert_eq!(pairs(&lines), vec![(1000, "Chorus".to_string()), (5000, "Chorus".to_string())]);
}

#[test]
fn metadata_and_plain_lines_are_ignored() {
    let lines = parse_lyrics("title\n[ar:Someone]\n  [00:02.00]Text\r\n[00:03.00]More", "");
    assert_eq!(pairs(&lines), vec![(2000, "Text".to_string()), (3000, "More".to_string())]);
}

#[test]
fn empty_input_gives_no_lines() {
    assert!(parse_lyrics("", "").is_empty());
}

#[test]
fn out_of_range_times_are_refused() {
    assert!(parse_lyrics_checked("[307445734561826:00.00]x", "").is_none());
    assert!(parse_lyrics_checked("[00:00.12345678901234567890123]x", "").is_none());
    let ok = parse_lyrics_checked("[99999999999999999999:00.00]x\n[00:01]y", "").unwrap();
    assert_eq!(pairs(&ok), vec![(1000, "y".to_string())]);
}

#[test]
fn url_encoding() {
    assert_eq!(url_encode("a b&c"), "a+b%26c");
    assert_eq!(url_encode("-_.~AZaz09"), "-_.~AZaz09");
    assert_eq!(url_encode("中"), "%E4%B8%AD");
    assert_eq!(url_encode(""), "");
}

#[test]
fn search_address() {
    assert_eq!(
        search_url("Song", "Artist").unwrap(),
        "http://music.163.com/api/search/get/web?s=Song+Artist&type=1&offset=0&total=true&limit=1"
    );
    assert_eq!(search_url("", "Artist"), None);
}

#[test]
fn lyric_address() {
    assert_eq!(lyric_url(123), "http://music.163.com/api/song/lyric?id=123&lv=1&kv=1&tv=-1");
    assert_eq!(lyric_url(-7), "http://music.163.com/api/song/lyric?id=-7&lv=1&kv=1&tv=-1");
    assert_eq!(
        lyric_url(i64::MIN),
        "http://music.163.com/api/song/lyric?id=-9223372036854775808&lv=1&kv=1&tv=-1"
    );
}

fn obj(members: Vec<(&str, Json)>) -> Json {
    Json::Object(members.into_iter().map(|(k, v)| (k.to_string(), v)).collect())
}

#[test]
fn song_id_of_a_search_response() {
    let resp = obj(vec![(
        "result",
        obj(vec![(
            "songs",
            Json::Array(vec![obj(vec![("id", Json::Number(Some(347230)))]), obj(vec![])]),
        )]),
    )]);
    assert_eq!(song_id_from_search(&resp), Some(347230));
    let empty = obj(vec![("result", obj(vec![("songs", Json::Array(vec![]))]))]);
    assert_eq!(song_id_from_search(&empty), None);
    let fractional = obj(vec![(
        "result",
        obj(vec![("songs", Json::Array(vec![obj(vec![("id", Json::Number(None))])]))]),
    )]);
    assert_eq!(song_id_from_search(&fractional), None);
    assert_eq!(song_id_from_search(&Json::Null), None);
}

#[test]
fn lyrics_of_a_lyric_response() {
    let resp = obj(vec![
        ("lrc", obj(vec![("lyric", Json::Text("[00:01.00]A\n[00:02.00]B".to_string()))])),
        ("tlyric", obj(vec![("lyric", Json::Null)])),
    ]);
    let lines = lyrics_from_response(&resp).unwrap();
    assert_eq!(pairs(&lines), vec![(1000, "A".to_string()), (2000, "B".to_string())]);
    let missing = obj(vec![("lrc", obj(vec![("lyric", Json::Text(String::new()))]))]);
    assert!(lyrics_from_response(&missing).is_none());
}

fn form_decode(t: &str) -> Vec<u8> {
    let cs: Vec<char> = t.chars().collect();
    let mut out = Vec::new();
    let mut i = 0;
    while i < cs.len() {
        if cs[i] == '+' {
            out.push(b' ');
            i += 1;
        } else if cs[i] == '%' && i + 2 < cs.len() {
            let hi = cs[i + 1].to_digit(16).unwrap_or(0) as u8;
            let lo = cs[i + 2].to_digit(16).unwrap_or(0) as u8;
            out.push(hi * 16 + lo);
            i += 3;
        } else {
            out.push(cs[i] as u32 as u8);
            i += 1;
        }
    }
    out
}

#[test]
fn url_encoding_decodes_back() {
    for s in ["晴天 周杰伦", "a+b %20 ~._-", "", "Ünïcödé & spaces"] {
        assert_eq!(form_decode(&url_encode(s)), s.as_bytes());
    }
    assert_ne!(url_encode("a b"), url_encode("a+b"));
}

#[test]
fn checked_time_tags() {
    assert_eq!(parse_time_checked("01:02.50"), Some(Some(62_500)));
    assert_eq!(parse_time_checked("ti:Song"), Some(None));
    assert_eq!(parse_time_checked("99999999999999999999:00"), Some(None));
    assert_eq!(parse_time_checked("999999999999999999:00"), None);
}
