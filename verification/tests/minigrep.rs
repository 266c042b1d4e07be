use rust_demos::minigrep::{search, Config};

#[test]
fn config_new() {
    let arg = vec!["a", "b"].iter().map(|x| String::from(*x)).collect::<Vec<String>>();
    let cfg1 = Config::new(&arg);
    assert!(cfg1.is_err());
}

#[test]
fn config_new_reads_query_then_file() {
    let arg: Vec<String> = vec!["prog".to_string(), "needle".to_string(), "poem.txt".to_string()];
    let cfg = Config::new(&arg).ok().unwrap();
    assert_eq!(cfg.query(), "needle");
    assert_eq!(cfg.filename(), "poem.txt");
}

#[test]
fn config_new_error_text() {
    let arg: Vec<String> = vec![];
    match Config::new(&arg) {
        Err(m) => assert_eq!(m, "no enough args"),
        Ok(_) => panic!("expected an error"),
    }
}

#[test]
fn search_keeps_matching_lines_in_order() {
    let content = "safe, fast, productive.\nPick three.\nDuct tape.\nrust is fast";
    assert_eq!(search(content, "fast"), vec!["safe, fast, productive.".to_string(), "rust is fast".to_string()]);
    assert_eq!(search(content, "nothing"), Vec::<String>::new());
}

#[test]
fn search_handles_crlf_and_final_newline() {
    let content = "a fast line\r\nslow\r\nfast end\n";
    assert_eq!(search(content, "fast"), vec!["a fast line".to_string(), "fast end".to_string()]);
    assert_eq!(search(content, ""), vec!["a fast line".to_string(), "slow".to_string(), "fast end".to_string()]);
    assert_eq!(search("", "x"), Vec::<String>::new());
}
