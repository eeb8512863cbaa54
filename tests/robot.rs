use crawler::robot::parse_robots_txt;
use crawler::storage::{get_storage_config_path, DataEntry, Storage, StorageConfig};

#[test]
fn test_robots_txt_parsing() {
    let robots_txt = r#"
    # This is a comment
    User-agent: *
    Allow: /
    Disallow: /private/

    User-agent: MyCrawler
    Allow: /public/
    Disallow: /public/private/
    "#;

    let rules = parse_robots_txt(robots_txt);
    assert_eq!(rules.agent_count(), 2);
    assert_eq!(rules.rules_for("MyCrawler").unwrap().allow().len(), 1);
    assert_eq!(rules.rules_for("MyCrawler").unwrap().disallow().len(), 1);
}

#[test]
fn rules_before_any_agent_are_dropped() {
    let rules = parse_robots_txt("Disallow: /x\nuser-AGENT:  bot \r\nALLOW:/a\nnoise\nCrawl-delay: 5\nallow: /b");
    assert_eq!(rules.agent_count(), 1);
    let bot = rules.rules_for("bot").unwrap();
    assert_eq!(bot.agent(), "bot");
    assert_eq!(bot.allow(), &vec!["/a".to_string(), "/b".to_string()]);
    assert!(bot.disallow().is_empty());
    assert!(rules.rules_for("other").is_none());
    assert!(rules.default_allow());
}

#[test]
fn repeated_agent_keeps_one_entry() {
    let rules = parse_robots_txt("User-agent: a\nDisallow: /1\nUser-agent: b\nUser-agent: a\nDisallow: /2");
    assert_eq!(rules.agent_count(), 2);
    assert_eq!(
        rules.rules_for("a").unwrap().disallow(),
        &vec!["/1".to_string(), "/2".to_string()]
    );
}

#[test]
fn empty_text_has_no_agents() {
    let rules = parse_robots_txt("");
    assert_eq!(rules.agent_count(), 0);
}

#[test]
fn storage_config_names_file_after_domain() {
    assert_eq!(get_storage_config_path(), "storage_config.json");
    let config = StorageConfig { output_path: "out".to_string(), file_name: "data.json".to_string() };
    let renamed = config.clone().with_file_name(Some("example.com"));
    assert_eq!(renamed.file_name, "example.com.json");
    assert_eq!(renamed.output_path, "out");
    let same = config.with_file_name(None);
    assert_eq!(same.file_name, "data.json");
    let storage = Storage::new(same);
    assert_eq!(storage.config.output_path, "out");
}

#[test]
fn finds_first_record_for_url() {
    let entry = |url: &str, status: i32| DataEntry {
        url: url.to_string(),
        status_code: status,
        content_type: None,
        title: None,
        crawled_at: 0,
    };
    let entries = vec![entry("http://a.test/", 200), entry("http://b.test/", 404), entry("http://b.test/", 200)];
    assert_eq!(Storage::find_entry(&entries, "http://b.test/"), Some(1));
    assert_eq!(Storage::find_entry(&entries, "http://c.test/"), None);
}
