use malim_chat::thinking::{
    find_thinking_marker, split_thinking, strip_thinking, thinking_marker_suffix_len,
    thinking_markers, ThinkingStream,
};

fn streamed(chunks: &[&str]) -> (String, String) {
    let mut stream = ThinkingStream::new();
    let mut pieces = Vec::new();
    for chunk in chunks {
        pieces.extend(stream.push(chunk));
    }
    pieces.extend(stream.finish());
    let pick = |wanted: bool| {
        pieces
            .iter()
            .filter(|(reasoning, _)| *reasoning == wanted)
            .map(|(_, text)| text.as_str())
            .collect::<String>()
    };
    (pick(false), pick(true))
}

#[test]
fn chunks_of_any_size_give_what_the_whole_text_gives() {
    for text in [
        "plain", "<think>a</think>b", "x<THINK>y</thinking>z", "<thinking>open", "a<thi",
        "a<b<think>c</b></think>d", "</think>stray", "ž<think>č</think>ř",
        "<think>1</think>2<thinking>3</THINKING>4<",
    ] {
        let chars: Vec<char> = text.chars().collect();
        for size in 1..=chars.len() {
            let chunks: Vec<String> = chars.chunks(size).map(|c| c.iter().collect()).collect();
            let refs: Vec<&str> = chunks.iter().map(String::as_str).collect();
            assert_eq!(streamed(&refs), split_thinking(text), "{:?} by {}", text, size);
        }
    }
}

#[test]
fn text_without_markers_is_unchanged() {
    for text in ["", "a < b", "<thin>", "no tags </think> opened"] {
        assert_eq!(split_thinking(text), (text.to_string(), String::new()));
        assert_eq!(strip_thinking(text), text);
    }
}

#[test]
fn an_end_that_may_begin_a_marker_waits() {
    assert_eq!(thinking_marker_suffix_len("abc<THIN", false), 5);
    assert_eq!(thinking_marker_suffix_len("abc</th", true), 4);
    assert_eq!(thinking_marker_suffix_len("abc</th", false), 0);
    assert_eq!(thinking_marker_suffix_len("abc<", false), 1);
    let mut stream = ThinkingStream::new();
    assert_eq!(stream.push("a<think"), vec![(false, "a".to_string())]);
    assert_eq!(stream.finish(), vec![(false, "<think".to_string())]);
    assert_eq!(stream.finish(), vec![]);
}

#[test]
fn the_first_marker_counts() {
    assert_eq!(find_thinking_marker("ž<think>x<thinking>", false), Some((2, 7)));
    assert_eq!(find_thinking_marker("ж€𝄞</THINK>", true), Some((9, 8)));
    assert_eq!(find_thinking_marker("ab<Thinking>", false), Some((2, 10)));
    assert_eq!(find_thinking_marker("none", false), None);
    assert_eq!(find_thinking_marker("a</think>", true), Some((1, 8)));
    assert_eq!(thinking_markers(true), ["</thinking>", "</think>"]);
    assert_eq!(thinking_markers(false), ["<thinking>", "<think>"]);
}
