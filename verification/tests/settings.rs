use makereadme::settings::{parse_i32_or, parse_u32_or};
use makereadme::errors::Error;
use makereadme::settings::{
    env_text, format_env_value, mask_secret, normalize_env_value, parse_api_type, read_answer,
    split_lines, update_env_lines, value_or_default, Answer, ApiType,
};

#[test]
fn masks_secrets() {
    assert_eq!(mask_secret(""), "<empty>");
    assert_eq!(mask_secret("abc"), "***");
    assert_eq!(mask_secret("abcdef"), "******");
    assert_eq!(mask_secret("abcdefg"), "abc*efg");
    assert_eq!(mask_secret("sk-1234567890xyz"), "sk-**********xyz");
    assert_eq!(mask_secret("ğüşiöçxyz").chars().count(), 9);
}

#[test]
fn answers() {
    assert_eq!(read_answer("  yes\n"), Answer::Yes);
    assert_eq!(read_answer("Y"), Answer::Yes);
    assert_eq!(read_answer("n"), Answer::No);
    assert_eq!(read_answer("No way"), Answer::No);
    assert_eq!(read_answer("maybe"), Answer::Unclear);
    assert_eq!(read_answer("   "), Answer::Unclear);
}

#[test]
fn defaults() {
    assert_eq!(value_or_default("  \n", "16384"), "16384");
    assert_eq!(value_or_default(" 4096 \n", "16384"), "4096");
}

#[test]
fn env_values_normalized() {
    assert_eq!(normalize_env_value(None), None);
    assert_eq!(normalize_env_value(Some("  ".to_string())), None);
    assert_eq!(normalize_env_value(Some(" GEMINI ".to_string())), Some("GEMINI".to_string()));
}

#[test]
fn api_types() {
    assert_eq!(parse_api_type("GEMINI"), Ok(ApiType::GEMINI));
    assert_eq!(parse_api_type("GROQ"), Ok(ApiType::GROQ));
    assert_eq!(parse_api_type("LLMAPI"), Ok(ApiType::LLMAPI));
    assert_eq!(parse_api_type("LOCAL"), Ok(ApiType::LOCAL));
    assert_eq!(parse_api_type("NVIDIA"), Ok(ApiType::NVIDIA));
    assert_eq!(parse_api_type("gemini"), Err(Error::UnknownApiTypeError("gemini".to_string())));
}

#[test]
fn env_value_quoting() {
    assert_eq!(format_env_value("gemini-2.5-flash"), "gemini-2.5-flash");
    assert_eq!(format_env_value("/models/x.gguf"), "/models/x.gguf");
    assert_eq!(format_env_value("a b"), "\"a b\"");
    assert_eq!(format_env_value("say \"hi\" \\ bye"), "\"say \\\"hi\\\" \\\\ bye\"");
    assert_eq!(format_env_value(""), "");
}

#[test]
fn lines_split_like_str_lines() {
    for text in ["", "a", "a\n", "a\r\nb", "a\n\nb\n", "x\r", "\n", "k=v\r\n# c\r\n"] {
        let expected: Vec<String> = text.lines().map(|l| l.to_string()).collect();
        assert_eq!(split_lines(text), expected, "text {:?}", text);
    }
}

#[test]
fn saving_settings_updates_first_assignment_and_appends_missing_keys() {
    let lines = split_lines("# LLM_TYPE=OLD\nLLM_TYPE = GROQ\nOTHER=1\nLLM_TYPE=SECOND\n");
    let updated = update_env_lines(lines, "GEMINI", "sk test", "gemini-2.5-pro");
    assert_eq!(
        env_text(&updated),
        "# LLM_TYPE=OLD\nLLM_TYPE=GEMINI\nOTHER=1\nLLM_TYPE=SECOND\nAPI_KEY=\"sk test\"\nLLM_MODEL=gemini-2.5-pro\n"
    );
}

#[test]
fn saving_settings_twice_changes_nothing() {
    let once = update_env_lines(split_lines("A=1\nAPI_KEY=old\n"), "LOCAL", "NONE", "/m/x.gguf");
    let twice = update_env_lines(once.clone(), "LOCAL", "NONE", "/m/x.gguf");
    assert_eq!(once, twice);
    assert_eq!(env_text(&once), "A=1\nAPI_KEY=NONE\nLLM_TYPE=LOCAL\nLLM_MODEL=/m/x.gguf\n");
}

#[test]
fn empty_env_file() {
    let updated = update_env_lines(Vec::new(), "GROQ", "k", "m");
    assert_eq!(env_text(&updated), "LLM_TYPE=GROQ\nAPI_KEY=k\nLLM_MODEL=m\n");
}

#[test]
fn env_text_splits_back_into_its_lines() {
    let lines = vec!["# comment".to_string(), "A=1".to_string(), String::new(), "B=\"x y\"".to_string()];
    assert_eq!(split_lines(&env_text(&lines)), lines);
}

#[test]
fn saving_settings_twice_gives_the_same_file() {
    let before = "# keys\r\nLLM_TYPE=GROQ\nOTHER=1";
    let once = env_text(&update_env_lines(split_lines(before), "GEMINI", "k y", "m-1"));
    let twice = env_text(&update_env_lines(split_lines(&once), "GEMINI", "k y", "m-1"));
    assert_eq!(once, "# keys\nLLM_TYPE=GEMINI\nOTHER=1\nAPI_KEY=\"k y\"\nLLM_MODEL=m-1\n");
    assert_eq!(twice, once);
}

#[test]
fn numbers_read_like_str_parse() {
    for t in ["16384", "+7", "0", "4294967295", "4294967296", "", "+", "-1", " 5", "12a", "007"] {
        assert_eq!(parse_u32_or(t, 99), t.parse::<u32>().unwrap_or(99), "{:?}", t);
    }
    for t in ["20", "-20", "+3", "-", "+", "2147483647", "2147483648", "-2147483648", "-2147483649", "-+1", "x"] {
        assert_eq!(parse_i32_or(t, -7), t.parse::<i32>().unwrap_or(-7), "{:?}", t);
    }
}

#[test]
fn saving_twice_keeps_replaced_carriage_returns_out() {
    let before = "LLM_TYPE=a\r";
    let once = env_text(&update_env_lines(split_lines(before), "GEMINI", "k", "m"));
    let twice = env_text(&update_env_lines(split_lines(&once), "GEMINI", "k", "m"));
    assert_eq!(once, "LLM_TYPE=GEMINI\nAPI_KEY=k\nLLM_MODEL=m\n");
    assert_eq!(twice, once);
}
