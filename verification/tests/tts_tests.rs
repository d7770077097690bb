use toaster::tts::{is_chinese_voice, TextToSpeech};

fn names(v: &[&str]) -> Vec<String> {
    v.iter().map(|s| s.to_string()).collect()
}

#[test]
fn chinese_voice_names() {
    assert!(is_chinese_voice("Microsoft Huihui - Chinese (Simplified, PRC)"));
    assert!(is_chinese_voice("Google 普通话（中国大陆）"));
    assert!(is_chinese_voice("zh-TW"));
    assert!(is_chinese_voice("Mei-Jia (TAIWAN)"));
    assert!(is_chinese_voice("小明 男"));
    assert!(!is_chinese_voice("Google US English"));
    assert!(!is_chinese_voice(""));
}

#[test]
fn chinese_voices_are_preferred() {
    let list = names(&["Google US English", "Microsoft Yaoyao - Chinese", "Alex", "Google 国语（臺灣）"]);
    assert_eq!(TextToSpeech::select_voice_indices(&list), vec![1, 3]);
}

#[test]
fn without_chinese_voices_all_are_offered() {
    let list = names(&["Alex", "Samantha", "Daniel"]);
    assert_eq!(TextToSpeech::select_voice_indices(&list), vec![0, 1, 2]);
    assert!(TextToSpeech::select_voice_indices(&vec![]).is_empty());
}
