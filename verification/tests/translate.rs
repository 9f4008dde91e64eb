use nexus_mod_manager::translate::{
    all_engines_failed, engine_error_line, engine_order, interpret_mymemory_reply, llm_mode,
    mymemory_url, smart_cache_answer, smart_start, TranslateResult,
};

#[test]
fn mymemory_url_encodes_the_trimmed_text() {
    assert_eq!(
        mymemory_url("  Hello World  ").unwrap(),
        "https://api.mymemory.translated.net/get?q=Hello%20World&langpair=en|zh-CN"
    );
    assert_eq!(
        mymemory_url("a&b=c~d").unwrap(),
        "https://api.mymemory.translated.net/get?q=a%26b%3Dc~d&langpair=en|zh-CN"
    );
    assert_eq!(
        mymemory_url("中").unwrap(),
        "https://api.mymemory.translated.net/get?q=%E4%B8%AD&langpair=en|zh-CN"
    );
    assert_eq!(mymemory_url("   ").unwrap_err(), "无内容");
}

#[test]
fn mymemory_replies() {
    assert_eq!(interpret_mymemory_reply(Some(200), None, Some(" 你好 ".to_string())), Ok("你好".to_string()));
    assert_eq!(interpret_mymemory_reply(Some(200), None, Some("  ".to_string())), Err("翻译结果为空".to_string()));
    assert_eq!(interpret_mymemory_reply(Some(200), None, None), Err("翻译结果为空".to_string()));
    assert_eq!(interpret_mymemory_reply(Some(429), Some("quota".to_string()), None), Err("quota".to_string()));
    assert_eq!(interpret_mymemory_reply(None, None, Some("x".to_string())), Err("翻译失败".to_string()));
}

#[test]
fn engine_modes() {
    assert_eq!(llm_mode("mymemory", true), "mymemory");
    assert_eq!(llm_mode("llm", true), "llm");
    assert_eq!(llm_mode("llm", false), "mymemory");
    assert_eq!(llm_mode("dual", true), "dual");
    assert_eq!(llm_mode("other", true), "dual");
    assert_eq!(llm_mode("other", false), "mymemory");
    assert_eq!(engine_order("mymemory"), vec!["mymemory"]);
    assert_eq!(engine_order("llm"), vec!["llm"]);
    assert_eq!(engine_order("dual"), vec!["mymemory", "llm"]);
}

#[test]
fn smart_translation_steps() {
    assert_eq!(smart_start("  hi ").unwrap(), "hi");
    let empty = smart_start(" ").unwrap_err();
    assert!(!empty.success);
    assert_eq!(empty.error.as_deref(), Some("无内容"));
    let cached = smart_cache_answer(Some("缓存".to_string())).unwrap();
    assert_eq!(cached.provider.as_deref(), Some("cache"));
    assert_eq!(cached.translated.as_deref(), Some("缓存"));
    assert!(smart_cache_answer(None).is_none());
    assert_eq!(engine_error_line("llm", "timeout"), "llm: timeout");
    let all = all_engines_failed(&vec!["mymemory: a".to_string(), "llm: b".to_string()]);
    assert_eq!(all.error.as_deref(), Some("所有翻译渠道均失败: mymemory: a | llm: b"));
    assert_eq!(all_engines_failed(&vec![]).error.as_deref(), Some("所有翻译渠道均失败"));
}

#[test]
fn translate_results() {
    let ok = TranslateResult::success("x".to_string(), "mymemory");
    assert!(ok.success);
    assert_eq!(ok.provider.as_deref(), Some("mymemory"));
    let bad = TranslateResult::failure("e".to_string());
    assert!(!bad.success);
    assert!(bad.provider.is_none());
    let from = TranslateResult::from_engine(Err("z".to_string()), "llm");
    assert_eq!(from.error.as_deref(), Some("z"));
}
