use miku_tunes::engine::{NativeSourceAdapter, ScriptFile, SourceEngine, SourceInfo};
use miku_tunes::search::{
    more_pages, next_page_wanted, next_playlist_page_wanted, plan_search, PageOutcome, MAX_SEARCH_CONCURRENT,
};
use miku_tunes::sources::{
    detect_native_adapter, extract_js_var, extract_source_name, parse_source_content,
    preferred_quality_for_platform, preferred_search_platforms, source_supports_search,
};

const LX_SCRIPT: &str = "/**\n * @name 洛雪源 **\n * @version 1.0\n */\nconst API_URL = \"https://api.example.com/\"\nconst API_KEY = 'k123'\nconst MUSIC_QUALITY = JSON.parse('{\"wy\":[\"320k\"],\"kw\":[\"128k\"]}')\nswitch (action) { case 'search': break }\n";

fn scripts() -> Vec<ScriptFile> {
    vec![
        ScriptFile { stem: "lx_source".to_string(), content: Some(LX_SCRIPT.to_string()) },
        ScriptFile { stem: "kugou_music".to_string(), content: Some(String::new()) },
        ScriptFile { stem: "broken".to_string(), content: None },
    ]
}

fn ids(sources: &[SourceInfo]) -> Vec<usize> {
    sources.iter().map(|s| s.id).collect()
}

#[test]
fn scan_sorts_by_stem_and_adds_xiaowo() {
    let engine = SourceEngine::new(&scripts());
    let sources = engine.get_sources();
    let stems: Vec<&str> = sources.iter().map(|s| s.file_name.as_str()).collect();
    assert_eq!(stems, vec!["broken", "kugou_music", "lx_source", "xiaowo"]);
    assert_eq!(ids(&sources), vec![0, 1, 2, 3]);
    let names: Vec<&str> = sources.iter().map(|s| s.name.as_str()).collect();
    assert_eq!(names, vec!["broken", "kugou_music", "洛雪源", "xiaowo"]);
    assert!(sources.iter().all(|s| s.enabled && s.score == 0));
    assert_eq!(engine.get_active_source().unwrap().file_name, "broken");
}

#[test]
fn scan_reads_declarations() {
    let engine = SourceEngine::new(&scripts());
    assert!(engine.meta_of(0).is_none());
    let kugou = engine.meta_of(1).unwrap();
    assert_eq!(kugou.adapter, Some(NativeSourceAdapter::Kugou));
    assert_eq!(kugou.platforms, vec!["kg".to_string()]);
    assert!(kugou.can_search);
    let lx = engine.meta_of(2).unwrap();
    assert_eq!(lx.api_url, "https://api.example.com/");
    assert_eq!(lx.api_key, "k123");
    assert_eq!(lx.adapter, None);
    assert!(lx.can_search);
    let mut platforms = lx.platforms.clone();
    platforms.sort();
    assert_eq!(platforms, vec!["kw".to_string(), "wy".to_string()]);
    let xiaowo = engine.meta_of(3).unwrap();
    assert_eq!(xiaowo.adapter, Some(NativeSourceAdapter::Xiaowo));
    assert_eq!(xiaowo.platforms, vec!["kw".to_string()]);
    assert!(engine.meta_of(4).is_none());
}

#[test]
fn existing_xiaowo_script_is_not_doubled() {
    let engine = SourceEngine::new(&vec![
        ScriptFile { stem: "XiaoWo".to_string(), content: Some(String::new()) },
        ScriptFile { stem: "alpha".to_string(), content: None },
    ]);
    let stems: Vec<String> = engine.get_sources().iter().map(|s| s.file_name.clone()).collect();
    assert_eq!(stems, vec!["XiaoWo".to_string(), "alpha".to_string()]);
    assert_eq!(engine.meta_of(0).unwrap().adapter, Some(NativeSourceAdapter::Xiaowo));
}

#[test]
fn switch_source_only_to_known_ids() {
    let mut engine = SourceEngine::new(&scripts());
    assert!(engine.switch_source(2));
    assert_eq!(engine.get_active_source().unwrap().id, 2);
    assert!(!engine.switch_source(9));
    assert_eq!(engine.get_active_source().unwrap().id, 2);
}

#[test]
fn enabling_a_source_makes_it_active() {
    let mut engine = SourceEngine::new(&scripts());
    let after = engine.set_source_enabled(1, false);
    assert!(!after[1].enabled);
    assert_eq!(engine.get_active_source().unwrap().id, 0);
    let after = engine.set_source_enabled(1, true);
    assert!(after[1].enabled);
    assert_eq!(engine.get_active_source().unwrap().id, 1);
}

#[test]
fn move_source_up_down_top() {
    let mut engine = SourceEngine::new(&scripts());
    assert_eq!(ids(&engine.move_source(3, "top")), vec![3, 0, 1, 2]);
    assert_eq!(ids(&engine.move_source(3, "up")), vec![3, 0, 1, 2]);
    assert_eq!(ids(&engine.move_source(0, "down")), vec![3, 1, 0, 2]);
    assert_eq!(ids(&engine.move_source(2, "down")), vec![3, 1, 0, 2]);
    assert_eq!(ids(&engine.move_source(0, "up")), vec![3, 0, 1, 2]);
    assert_eq!(ids(&engine.move_source(1, "sideways")), vec![3, 0, 1, 2]);
    assert_eq!(ids(&engine.move_source(42, "top")), vec![3, 0, 1, 2]);
}

#[test]
fn move_up_then_down_restores_order() {
    let mut engine = SourceEngine::new(&scripts());
    let before = ids(&engine.get_sources());
    engine.move_source(2, "up");
    let back = engine.move_source(2, "down");
    assert_eq!(ids(&back), before);
}

#[test]
fn score_up_then_down_restores_score() {
    let mut engine = SourceEngine::new(&scripts());
    engine.score_source(2, true);
    engine.score_source(2, true);
    assert_eq!(engine.get_sources()[2].score, 2);
    engine.score_source(2, false);
    assert_eq!(engine.get_sources()[2].score, 1);
    engine.score_source(2, false);
    assert_eq!(engine.get_sources()[2].score, 0);
    engine.score_source(7, true);
    assert!(engine.get_sources().iter().all(|s| s.score == 0));
}

#[test]
fn checked_scoring() {
    let mut engine = SourceEngine::new(&scripts());
    assert!(engine.can_score(2, true));
    assert!(engine.can_score(2, false));
    assert!(engine.can_score(7, true));
    assert!(engine.score_source_checked(2, false));
    assert_eq!(engine.get_sources()[2].score, -1);
    assert!(engine.score_source_checked(2, true));
    assert_eq!(engine.get_sources()[2].score, 0);
}

#[test]
fn search_plan_puts_xiaowo_first_then_rounds_by_score() {
    let mut engine = SourceEngine::new(&scripts());
    let plan = engine.search_plan();
    assert_eq!(ids(&plan.priority), vec![3]);
    assert_eq!(plan.rounds.len(), 1);
    assert_eq!(ids(&plan.rounds[0]), vec![1, 2]);
    engine.score_source(2, true);
    let plan = engine.search_plan();
    assert_eq!(ids(&plan.rounds[0]), vec![2, 1]);
    engine.set_source_enabled(1, false);
    let plan = engine.search_plan();
    assert_eq!(ids(&plan.rounds[0]), vec![2]);
}

#[test]
fn search_rounds_hold_at_most_six_sources() {
    let mut files = Vec::new();
    for i in 0..8 {
        files.push(ScriptFile {
            stem: format!("s{i}"),
            content: Some("const API_URL = \"http://x\"\nmusicSearch".to_string()),
        });
    }
    let engine = SourceEngine::new(&files);
    let plan = engine.search_plan();
    assert_eq!(plan.rounds.len(), 2);
    assert_eq!(plan.rounds[0].len(), MAX_SEARCH_CONCURRENT);
    assert_eq!(plan.rounds[1].len(), 2);
    let sources = engine.get_sources();
    let metas: Vec<_> = (0..sources.len()).map(|i| engine.meta_of(i)).collect();
    let again = plan_search(&sources, &metas);
    assert_eq!(ids(&again.priority), ids(&plan.priority));
}

#[test]
fn plans_for_more_results_charts_and_hot_words() {
    let engine = SourceEngine::new(&scripts());
    assert_eq!(ids(&engine.more_plan()), vec![1, 3]);
    assert_eq!(ids(&engine.chart_plan()), vec![3]);
    assert_eq!(engine.hot_word_source_ids(), vec![2]);
    assert_eq!(engine.kuwo_engine_source_ids(), vec![3]);
}

#[test]
fn more_pages_per_engine() {
    assert_eq!(more_pages(NativeSourceAdapter::Xiaowo, 0), vec![0, 1, 2]);
    assert_eq!(more_pages(NativeSourceAdapter::Xiaowo, 100), vec![3, 4, 5]);
    assert_eq!(more_pages(NativeSourceAdapter::Kugou, 100), vec![4, 5, 6]);
    assert_eq!(more_pages(NativeSourceAdapter::Bilibili, 250), vec![7, 8, 9]);
    assert_eq!(more_pages(NativeSourceAdapter::Netease, 200), vec![600, 700, 800]);
}

#[test]
fn js_vars_in_their_forms() {
    let script = "// const API_URL = \"commented\"\nconst API_URL = \"https://a.example\";\nlet API_KEY = `tick`\nvar LIMIT = 42;\nconst MUSIC_QUALITY = JSON.parse('{\"kw\":[\"128k\"]}')\nconst EMPTY = ";
    assert_eq!(extract_js_var(script, "API_URL").as_deref(), Some("https://a.example"));
    assert_eq!(extract_js_var(script, "API_KEY").as_deref(), Some("tick"));
    assert_eq!(extract_js_var(script, "LIMIT").as_deref(), Some("42"));
    assert_eq!(
        extract_js_var(script, "MUSIC_QUALITY").as_deref(),
        Some("{\"kw\":[\"128k\"]}")
    );
    assert_eq!(extract_js_var(script, "EMPTY"), None);
    assert_eq!(extract_js_var(script, "MISSING"), None);
}

#[test]
fn source_name_from_header() {
    assert_eq!(extract_source_name(LX_SCRIPT).as_deref(), Some("洛雪源"));
    assert_eq!(extract_source_name("no header here"), None);
    let mut late = String::new();
    for _ in 0..30 {
        late.push_str("x\n");
    }
    late.push_str("@name Late\n");
    assert_eq!(extract_source_name(&late), None);
}

#[test]
fn native_adapters_by_file_name() {
    assert_eq!(detect_native_adapter("KuGou_plus"), Some(NativeSourceAdapter::Kugou));
    assert_eq!(detect_native_adapter("kg.js"), Some(NativeSourceAdapter::Kugou));
    assert_eq!(detect_native_adapter("wangyi"), Some(NativeSourceAdapter::Netease));
    assert_eq!(detect_native_adapter("wy_music"), Some(NativeSourceAdapter::Netease));
    assert_eq!(detect_native_adapter("bili"), Some(NativeSourceAdapter::Bilibili));
    assert_eq!(detect_native_adapter("lx_source"), None);
}

#[test]
fn search_support_markers() {
    assert!(source_supports_search("fetch('/API/V1/SEARCH')"));
    assert!(source_supports_search("case \"musicSearch\":"));
    assert!(!source_supports_search("case 'url':"));
}

#[test]
fn parse_content_without_url_has_no_declaration() {
    let (name, meta) = parse_source_content(" * @name Plain", "plain");
    assert_eq!(name, "Plain");
    assert!(meta.is_none());
    let (name, meta) = parse_source_content("", "xiaowo");
    assert_eq!(name, "xiaowo");
    assert_eq!(meta.unwrap().adapter, Some(NativeSourceAdapter::Xiaowo));
}

#[test]
fn default_platform_is_kuwo() {
    let (_, meta) = parse_source_content("const API_URL = 'http://h'", "src");
    assert_eq!(meta.unwrap().platforms, vec!["kw".to_string()]);
}

#[test]
fn search_platforms_known_first_two_at_most() {
    let p = |v: &[&str]| v.iter().map(|s| s.to_string()).collect::<Vec<_>>();
    assert_eq!(preferred_search_platforms(&p(&["mg", "xx", "kw", "tx"])), p(&["kw", "tx"]));
    assert_eq!(preferred_search_platforms(&p(&["xx", "yy"])), p(&["xx", "yy"]));
    assert_eq!(preferred_search_platforms(&p(&["mg"])), p(&["mg"]));
    assert_eq!(preferred_search_platforms(&p(&[])), p(&[]));
}

#[test]
fn quality_is_always_128k() {
    let (_, meta) = parse_source_content(LX_SCRIPT, "lx_source");
    let meta = meta.unwrap();
    assert_eq!(preferred_quality_for_platform(&meta, "kw"), "128k");
    assert_eq!(preferred_quality_for_platform(&meta, "zz"), "128k");
}

#[test]
fn page_walks_per_engine() {
    let all = [
        NativeSourceAdapter::Xiaowo,
        NativeSourceAdapter::Kugou,
        NativeSourceAdapter::Netease,
        NativeSourceAdapter::Bilibili,
    ];
    for a in all {
        assert!(next_page_wanted(a, false, PageOutcome::Listed(true)));
        assert!(!next_page_wanted(a, true, PageOutcome::Listed(false)));
    }
    assert!(!next_page_wanted(NativeSourceAdapter::Xiaowo, false, PageOutcome::Unanswered));
    assert!(next_page_wanted(NativeSourceAdapter::Netease, false, PageOutcome::Unanswered));
    assert!(next_page_wanted(NativeSourceAdapter::Kugou, false, PageOutcome::NoList));
    assert!(!next_page_wanted(NativeSourceAdapter::Kugou, true, PageOutcome::NoList));
    assert!(!next_page_wanted(NativeSourceAdapter::Bilibili, false, PageOutcome::NoList));
    assert!(next_playlist_page_wanted(PageOutcome::Listed(true)));
    assert!(!next_playlist_page_wanted(PageOutcome::Unanswered));
}
