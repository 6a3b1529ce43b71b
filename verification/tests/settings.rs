use tweec::config::{
    CliConfig, ColorChoice, Config, ConfigFile, ConfigFileInternal, FormatConfig,
};
use tweec::paths::{cut, find_byte, find_variable, PathVariable, DOLLAR, SLASH};
use tweec::output::{fill_page, output_file_name, story_title};
use tweec::text::replace_all;
use tweec::story_format::{blob_missing, cut_blob, default_name, find_blob, StoryFormat};

fn strings(items: &[&str]) -> Vec<String> {
    items.iter().map(|s| s.to_string()).collect()
}

fn config_file() -> ConfigFile {
    let mut written = ConfigFileInternal::new(strings(&["$HOME/storyformats"]));
    written.set_lists(
        "default".to_string(),
        FormatConfig { allow: strings(&["DeadLink"]), deny: strings(&["UnclosedLink"]) },
    );
    written.set_lists(
        "sugarcube-2".to_string(),
        FormatConfig { allow: strings(&["WhitespaceInLink"]), deny: strings(&["MissingStoryData"]) },
    );
    written.set_lists("harlowe".to_string(), FormatConfig { allow: vec![], deny: strings(&["all"]) });
    let mut file = ConfigFile::from_written(written);
    file.add_format("sugarcube-2".to_string(), "/formats/sugarcube-2/format.js".to_string());
    file
}

fn command_line(format: Option<&str>) -> CliConfig {
    CliConfig {
        linting: true,
        inputs: strings(&["story.twee", "more"]),
        format: format.map(|s| s.to_string()),
        output_file: Some("out.html".to_string()),
        should_open: true,
        allowed: strings(&["JsonError"]),
        denied: strings(&["EscapedOpenSquare"]),
        use_color: ColorChoice::AlwaysAnsi,
        compact: true,
    }
}

#[test]
fn known_format_takes_its_path_and_lists() {
    let config = Config::layer(config_file(), command_line(Some("sugarcube-2")));
    assert_eq!(config.format_file, "/formats/sugarcube-2/format.js");
    assert_eq!(config.allowed, strings(&["JsonError", "DeadLink", "WhitespaceInLink"]));
    assert_eq!(config.denied, strings(&["EscapedOpenSquare", "UnclosedLink", "MissingStoryData"]));
}

#[test]
fn unknown_format_is_taken_as_a_path() {
    let config = Config::layer(config_file(), command_line(Some("my/format.js")));
    assert_eq!(config.format_file, "my/format.js");
    assert_eq!(config.allowed, strings(&["JsonError", "DeadLink"]));
    assert_eq!(config.denied, strings(&["EscapedOpenSquare", "UnclosedLink"]));
}

#[test]
fn format_with_lists_but_no_file_is_taken_as_a_path() {
    let config = Config::layer(config_file(), command_line(Some("harlowe")));
    assert_eq!(config.format_file, "harlowe");
    assert_eq!(config.allowed, strings(&["JsonError", "DeadLink"]));
    assert_eq!(config.denied, strings(&["EscapedOpenSquare", "UnclosedLink", "all"]));
}

#[test]
fn no_format_means_format_js_and_default_lists() {
    let config = Config::layer(config_file(), command_line(None));
    assert_eq!(config.format_file, "format.js");
    assert_eq!(config.allowed, strings(&["JsonError", "DeadLink"]));
    assert_eq!(config.denied, strings(&["EscapedOpenSquare", "UnclosedLink"]));
}

#[test]
fn format_named_default_gets_the_default_lists_twice() {
    let config = Config::layer(config_file(), command_line(Some("default")));
    assert_eq!(config.allowed, strings(&["JsonError", "DeadLink", "DeadLink"]));
    assert_eq!(config.denied, strings(&["EscapedOpenSquare", "UnclosedLink", "UnclosedLink"]));
}

#[test]
fn empty_file_leaves_the_command_line_lists() {
    let file = ConfigFile::from_written(ConfigFileInternal::new(vec![]));
    let config = Config::layer(file, command_line(Some("sugarcube-2")));
    assert_eq!(config.format_file, "sugarcube-2");
    assert_eq!(config.allowed, strings(&["JsonError"]));
    assert_eq!(config.denied, strings(&["EscapedOpenSquare"]));
}

#[test]
fn the_rest_is_as_the_command_line_gave_it() {
    let config = Config::layer(config_file(), command_line(None));
    assert!(config.linting);
    assert_eq!(config.inputs, strings(&["story.twee", "more"]));
    assert_eq!(config.output_file, Some("out.html".to_string()));
    assert!(config.should_open);
    assert_eq!(config.use_color, ColorChoice::AlwaysAnsi);
    assert!(config.compact);
}

#[test]
fn color_flag_is_read() {
    assert_eq!(ColorChoice::from_flag(&"always".to_string(), false), ColorChoice::Always);
    assert_eq!(ColorChoice::from_flag(&"ansi".to_string(), false), ColorChoice::AlwaysAnsi);
    assert_eq!(ColorChoice::from_flag(&"auto".to_string(), true), ColorChoice::Auto);
    assert_eq!(ColorChoice::from_flag(&"auto".to_string(), false), ColorChoice::Never);
    assert_eq!(ColorChoice::from_flag(&"never".to_string(), true), ColorChoice::Never);
    assert_eq!(ColorChoice::from_flag(&"Always".to_string(), true), ColorChoice::Never);
    assert_eq!(ColorChoice::from_flag(&String::new(), true), ColorChoice::Never);
}

#[test]
fn file_as_written_holds_paths_and_lists() {
    let mut written = ConfigFileInternal::new(strings(&["$HOME/storyformats"]));
    written.set_lists("default".to_string(), FormatConfig { allow: vec![], deny: vec![] });
    written.set_lists("default".to_string(), FormatConfig { allow: strings(&["x"]), deny: vec![] });
    assert_eq!(written.format_paths, strings(&["$HOME/storyformats"]));
    assert!(written.format_configs.contains_key("default"));
    assert!(!written.format_configs.contains_key("harlowe"));
    assert_eq!(written.format_configs.get("default").unwrap().allow, strings(&["x"]));
    let file = ConfigFile::from_written(written);
    assert!(file.formats.is_empty());
    assert_eq!(file.format_configs.len(), 1);
}

#[test]
fn first_format_found_under_a_name_stays() {
    let mut file = ConfigFile::from_written(ConfigFileInternal::new(vec![]));
    file.add_format("harlowe".to_string(), "/one/harlowe/format.js".to_string());
    file.add_format("harlowe".to_string(), "/two/harlowe/format.js".to_string());
    file.add_format("snowman".to_string(), "/two/snowman/format.js".to_string());
    assert_eq!(file.formats.len(), 2);
    assert_eq!(file.formats.get("harlowe"), Some(&"/one/harlowe/format.js".to_string()));
    assert_eq!(file.formats.get("snowman"), Some(&"/two/snowman/format.js".to_string()));
}

#[test]
fn path_variables_are_known_by_name() {
    assert_eq!(PathVariable::from_name(&"HOME".to_string()), Some(PathVariable::Home));
    assert_eq!(PathVariable::from_name(&"PWD".to_string()), Some(PathVariable::Pwd));
    assert_eq!(PathVariable::from_name(&"TWEEC_BIN_DIR".to_string()), Some(PathVariable::BinDir));
    assert_eq!(PathVariable::from_name(&"TWEEC_DATA_DIR".to_string()), Some(PathVariable::DataDir));
    assert_eq!(PathVariable::from_name(&"PATH".to_string()), None);
    assert_eq!(PathVariable::from_name(&"home".to_string()), None);
    assert_eq!(PathVariable::from_name(&String::new()), None);
    assert_eq!(
        PathVariable::unsupported(),
        "Arbitrary environment variables are not currently supported"
    );
}

#[test]
fn every_occurrence_is_replaced() {
    assert_eq!(replace_all("$HOME/storyformats", "$HOME", "/home/me"), "/home/me/storyformats");
    assert_eq!(replace_all("a-b-c", "-", "+"), "a+b+c");
    assert_eq!(replace_all("aaa", "aa", "b"), "ba");
    assert_eq!(replace_all("aaaa", "aa", "b"), "bb");
    assert_eq!(replace_all("abc", "x", "y"), "abc");
    assert_eq!(replace_all("", "x", "y"), "");
    assert_eq!(replace_all("xx", "x", ""), "");
    assert_eq!(replace_all("déjà", "é", "e"), "dejà");
}

#[test]
fn empty_part_stands_before_each_character_and_at_the_end() {
    assert_eq!(replace_all("ab", "", "-"), "-a-b-");
    assert_eq!(replace_all("", "", "x"), "x");
    assert_eq!(replace_all("é", "", ""), "é");
}

#[test]
fn replacing_agrees_with_the_standard_library() {
    let texts = ["", "a", "aaa", "abcabc", "$HOME/$HOME", "{{A}}{{B}}{{A}}", "ééé", "a-b"];
    let parts = ["", "a", "aa", "bc", "$HOME", "{{A}}", "é", "-", "zz"];
    let withs = ["", "x", "aa", "/home/me"];
    for text in texts {
        for part in parts {
            for with in withs {
                assert_eq!(replace_all(text, part, with), text.replace(part, with));
            }
        }
    }
}

#[test]
fn page_holds_title_and_data() {
    let format = StoryFormat {
        name: default_name(),
        version: "1.0.0".to_string(),
        author: None,
        description: None,
        image: None,
        url: None,
        license: None,
        proofing: false,
        source: "<title>{{STORY_NAME}}</title>{{STORY_DATA}}<p>{{STORY_NAME}}</p>".to_string(),
    };
    assert_eq!(
        fill_page(&format, "My Story", "<tw-storydata></tw-storydata>"),
        "<title>My Story</title><tw-storydata></tw-storydata><p>My Story</p>"
    );
    assert_eq!(fill_page(&format, "{{STORY_DATA}}", "x"), "<title>x</title>x<p>x</p>");
}

#[test]
fn title_and_file_name_have_defaults() {
    assert_eq!(story_title(&None), "Untitled Story");
    assert_eq!(story_title(&Some("Mine".to_string())), "Mine");
    assert_eq!(output_file_name(&None, "Mine"), "Mine.html");
    assert_eq!(output_file_name(&Some("out.htm".to_string()), "Mine"), "out.htm");
}

#[test]
fn unnamed_format_has_the_default_name() {
    assert_eq!(default_name(), "Untitled Story Format");
    let format = StoryFormat {
        name: default_name(),
        version: "1.2.3".to_string(),
        author: None,
        description: None,
        image: None,
        url: None,
        license: None,
        proofing: false,
        source: "blah".to_string(),
    };
    assert_eq!(format.name, "Untitled Story Format");
    assert_eq!(format.version, "1.2.3");
    assert_eq!(format.source, "blah");
}

#[test]
fn blob_runs_from_first_brace_to_last() {
    let file = "window.storyFormat({\"name\":\"x\",\"source\":\"{}\"});";
    assert_eq!(find_blob(file), Some((19, 44)));
    assert_eq!(cut_blob(file, 19, 44), "{\"name\":\"x\",\"source\":\"{}\"}");
}

#[test]
fn harlowe_blob_ends_before_setup() {
    let file = "window.storyFormat({\"name\":\"harlowe\",\"source\":\"{}\",\"setup\":function(){}});";
    let (start, end) = find_blob(file).unwrap();
    assert_eq!((start, end), (19, 50));
    assert_eq!(cut_blob(file, start, end), "{\"name\":\"harlowe\",\"source\":\"{}\"}");
}

#[test]
fn harlowe_without_setup_has_no_blob() {
    assert_eq!(find_blob("{\"name\":\"harlowe\"}"), None);
}

#[test]
fn file_without_braces_has_no_blob() {
    assert_eq!(find_blob("nothing here"), None);
    assert_eq!(find_blob("only { opens"), None);
    assert_eq!(find_blob("only } closes"), None);
    assert_eq!(find_blob(""), None);
    assert_eq!(blob_missing(), "Could not find Twine2 JSON blob");
}

#[test]
fn blob_positions_count_characters() {
    let file = "é{\"a\":\"ü\"}";
    assert_eq!(find_blob(file), Some((1, 9)));
    assert_eq!(cut_blob(file, 1, 9), "{\"a\":\"ü\"}");
}

#[test]
fn closing_brace_may_come_first() {
    assert_eq!(find_blob("} {"), Some((2, 0)));
    assert_eq!(cut_blob("} {", 1, 1), "}");
}

#[test]
fn bytes_are_found_from_an_offset() {
    assert_eq!(DOLLAR, b'$');
    assert_eq!(SLASH, b'/');
    assert_eq!(find_byte(b"a/b/c", SLASH, 0), Some(1));
    assert_eq!(find_byte(b"a/b/c", SLASH, 1), Some(1));
    assert_eq!(find_byte(b"a/b/c", SLASH, 2), Some(3));
    assert_eq!(find_byte(b"a/b/c", SLASH, 4), None);
    assert_eq!(find_byte(b"a/b/c", SLASH, 99), None);
    assert_eq!(find_byte(b"", SLASH, 0), None);
}

#[test]
fn leading_variable_ends_at_the_slash() {
    assert_eq!(find_variable("$HOME/storyformats"), Some((0, 5)));
    assert_eq!(find_variable("$TWEEC_DATA_DIR/.storyformats"), Some((0, 15)));
    assert_eq!(cut("$HOME/storyformats", 0, 5), Some("$HOME"));
}

#[test]
fn variable_without_a_slash_behind_ends_with_the_path() {
    assert_eq!(find_variable("$PWD"), Some((0, 4)));
    assert_eq!(find_variable("formats/$HOME"), Some((8, 13)));
    assert_eq!(cut("formats/$HOME", 8, 13), Some("$HOME"));
    assert_eq!(find_variable("$"), Some((0, 1)));
}

#[test]
fn slash_is_counted_from_the_variable() {
    assert_eq!(find_variable("a/$HOME/b"), Some((2, 5)));
    assert_eq!(cut("a/$HOME/b", 2, 5), Some("$HO"));
    assert_eq!(find_variable("abcdefg/$H/x"), Some((8, 2)));
    assert_eq!(cut("abcdefg/$H/x", 8, 2), None);
    assert_eq!(find_variable("ab/$/x"), Some((3, 1)));
}

#[test]
fn path_without_a_dollar_has_no_variable() {
    assert_eq!(find_variable("/usr/share/storyformats"), None);
    assert_eq!(find_variable(""), None);
}

#[test]
fn text_is_cut_between_characters_only() {
    assert_eq!(cut("héllo", 0, 1), Some("h"));
    assert_eq!(cut("héllo", 1, 3), Some("é"));
    assert_eq!(cut("héllo", 1, 2), None);
    assert_eq!(cut("héllo", 2, 3), None);
    assert_eq!(cut("héllo", 3, 6), Some("llo"));
    assert_eq!(cut("héllo", 3, 7), None);
    assert_eq!(cut("héllo", 6, 6), Some(""));
    assert_eq!(cut("héllo", 4, 3), None);
    assert_eq!(cut("$", 1, 1), Some(""));
    assert_eq!(cut("", 1, 0), None);
}

fn text_of(value: &serde_json::Value, key: &str) -> Option<String> {
    value.get(key).and_then(|found| found.as_str()).map(|found| found.to_string())
}

#[test]
fn defaults() {
    let input = r#"{ "version": "1.2.3", "source": "blah" }"#;
    let res: serde_json::Result<serde_json::Value> = serde_json::from_str(input);
    assert!(res.is_ok());
    let value = res.ok().unwrap();
    let story_format = StoryFormat {
        name: text_of(&value, "name").unwrap_or_else(default_name),
        version: text_of(&value, "version").unwrap(),
        author: text_of(&value, "author"),
        description: text_of(&value, "description"),
        image: text_of(&value, "image"),
        url: text_of(&value, "url"),
        license: text_of(&value, "license"),
        proofing: value.get("proofing").and_then(|found| found.as_bool()).unwrap_or_default(),
        source: text_of(&value, "source").unwrap(),
    };
    assert_eq!(story_format.name, "Untitled Story Format");
    assert_eq!(story_format.version, "1.2.3");
    assert_eq!(story_format.author, None);
    assert_eq!(story_format.description, None);
    assert_eq!(story_format.image, None);
    assert_eq!(story_format.url, None);
    assert_eq!(story_format.license, None);
    assert_eq!(story_format.proofing, false);
    assert_eq!(story_format.source, "blah");
}
