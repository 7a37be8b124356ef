use nodecask::moderate::{
    comment_prompts, comment_step, fill_comment_prompt, fill_topic_prompt, load_moderators,
    parse_verdict, review_comment, review_topic, select_moderators, topic_prompts, topic_step, CommentStep, JoinedModerator,
    ModelInfo, ModeratorCfg, Penalty, PromptConfig, TopicStep, Verdict,
};

fn model(name: &str, max: i64) -> ModelInfo {
    ModelInfo { name: name.to_string(), max_content: max }
}

fn moderator(name: &str, model: &str, enable: bool, target: &str) -> ModeratorCfg {
    ModeratorCfg {
        name: name.to_string(),
        model: model.to_string(),
        enable,
        target: target.to_string(),
        prompt: PromptConfig { system: "sys %TOPIC_TITLE%".to_string(), user: String::new() },
        credit_damage: 3,
        coins_damage: 7,
    }
}

#[test]
fn moderators_join_their_models() {
    let models = vec![model("gpt", 100), model("gemini", 50), model("gpt", 10)];
    let mods = vec![
        moderator("a", "gpt", true, "topic"),
        moderator("b", "gemini", false, "topic"),
        moderator("c", "gemini", true, "comment"),
        moderator("d", "missing", true, "topic"),
        moderator("e", "gpt", true, "other"),
        moderator("f", "gemini", true, "topic"),
    ];
    let (topic, comment) = load_moderators(&models, &mods);
    // The last model of a name wins.
    assert_eq!(
        topic,
        vec![JoinedModerator { rule: 0, model: 2 }, JoinedModerator { rule: 5, model: 1 }]
    );
    assert_eq!(comment, vec![JoinedModerator { rule: 2, model: 1 }]);
    assert!(select_moderators(&models, &mods, "none").is_empty());
}

#[test]
fn moderator_defaults() {
    let m = ModeratorCfg::default();
    assert!(!m.enable);
    assert_eq!(m.coins_damage, 0);
    assert!(m.prompt.system.is_empty());
}

#[test]
fn prompts_are_filled_and_cut() {
    let filled = fill_topic_prompt(
        "T=%TOPIC_TITLE% C=%TOPIC_CONTENT% R=%TOPIC_CONTENT_RENDER% P=%TOPIC_CONTENT_PLAIN%",
        "title",
        "src",
        "<p>src</p>",
        "src!",
        0,
    );
    assert_eq!(filled, "T=title C=src R=<p>src</p> P=src!");
    let cut = fill_topic_prompt("%TOPIC_TITLE%-tail", "标题", "", "", "", 3);
    assert_eq!(cut, "标题-");
    let c = fill_comment_prompt("[%COMMENT_CONTENT%|%COMMENT_CONTENT_PLAIN%]", "a", "b", "c", 0);
    assert_eq!(c, "[a|c]");
}

#[test]
fn empty_prompts_stay_empty() {
    let p = PromptConfig { system: String::new(), user: "u %COMMENT_CONTENT%".to_string() };
    let (s, u) = comment_prompts(&p, &model("m", 0), "x", "y", "z");
    assert_eq!(s, "");
    assert_eq!(u, "u x");
    let q = PromptConfig { system: "s %TOPIC_TITLE%".to_string(), user: String::new() };
    let (s, u) = topic_prompts(&q, &model("m", 0), "T", "", "", "");
    assert_eq!(s, "s T");
    assert_eq!(u, "");
}

#[test]
fn verdict_words() {
    assert_eq!(parse_verdict("pass"), Verdict::Pass);
    assert_eq!(parse_verdict("pass-and-exit"), Verdict::PassAndExit);
    assert_eq!(parse_verdict("lock"), Verdict::Lock);
    assert_eq!(parse_verdict("delete"), Verdict::Delete);
    assert_eq!(parse_verdict("move"), Verdict::Move);
    assert_eq!(parse_verdict("Delete"), Verdict::Unknown);
}

#[test]
fn topic_review_steps() {
    let rule = moderator("a", "gpt", true, "topic");
    assert_eq!(topic_step(None, &rule, 9), TopicStep::Next);
    assert_eq!(topic_step(Some(Verdict::Pass), &rule, 9), TopicStep::Next);
    assert_eq!(topic_step(Some(Verdict::Unknown), &rule, 9), TopicStep::Next);
    assert_eq!(topic_step(Some(Verdict::PassAndExit), &rule, 9), TopicStep::Stop);
    assert_eq!(topic_step(Some(Verdict::Move), &rule, 9), TopicStep::Stop);
    assert_eq!(topic_step(Some(Verdict::Lock), &rule, 9), TopicStep::Lock);
    assert_eq!(
        topic_step(Some(Verdict::Delete), &rule, 9),
        TopicStep::Remove {
            trash_node: Some(9),
            penalty: Penalty { coins: Some(-7), credit: Some(-3) }
        }
    );
    let mut soft = rule;
    soft.coins_damage = 0;
    soft.credit_damage = -1;
    assert_eq!(
        topic_step(Some(Verdict::Delete), &soft, 0),
        TopicStep::Remove { trash_node: None, penalty: Penalty { coins: None, credit: None } }
    );
}

#[test]
fn comment_review_steps() {
    let rule = moderator("c", "gpt", true, "comment");
    assert_eq!(comment_step(None, &rule), CommentStep::Next);
    assert_eq!(comment_step(Some(Verdict::Pass), &rule), CommentStep::Next);
    assert_eq!(comment_step(Some(Verdict::Lock), &rule), CommentStep::Next);
    assert_eq!(comment_step(Some(Verdict::PassAndExit), &rule), CommentStep::Stop);
    // The credit score loses the coin damage.
    assert_eq!(
        comment_step(Some(Verdict::Delete), &rule),
        CommentStep::Remove(Penalty { coins: Some(-7), credit: Some(-7) })
    );
}

#[test]
fn reviews_run_until_a_moderator_ends_them() {
    let rules = vec![
        moderator("a", "gpt", true, "topic"),
        moderator("b", "gpt", true, "topic"),
        moderator("c", "gpt", true, "topic"),
    ];
    let passes = vec![Some(Verdict::Pass), None, Some(Verdict::Unknown)];
    assert_eq!(review_topic(&rules, &passes, 9), None);
    let locked = vec![None, Some(Verdict::Lock), Some(Verdict::Delete)];
    assert_eq!(review_topic(&rules, &locked, 9), Some((1, TopicStep::Lock)));
    // A reply's review goes on after a removal and stops at pass-and-exit.
    let verdicts = vec![Some(Verdict::Delete), Some(Verdict::PassAndExit), Some(Verdict::Delete)];
    let steps = review_comment(&rules, &verdicts);
    assert_eq!(
        steps,
        vec![
            CommentStep::Remove(Penalty { coins: Some(-7), credit: Some(-7) }),
            CommentStep::Stop
        ]
    );
    let all = review_comment(&rules, &vec![None, Some(Verdict::Delete), Some(Verdict::Lock)]);
    assert_eq!(all.len(), 3);
}
