use autobooru::error::{on_error, ErrorAction, FrameworkErrorKind};
use autobooru::task::{job_next, JobAction, JobStage};
use autobooru::client::{first_post, BooruClient, Post, QueryParams, Timestamp};
use autobooru::commands::{Registration, RegistrationAction, RegistrationEvent, RegistrationPhase};
use autobooru::embed::{
    format_tag_link,
    general_tags_text, hook_embed, image_embed, post_page_link, tag_link_text, to_separate,
    EMBED_COLOR,
};
use autobooru::handler::{
    classify_interaction, handle_event, interaction_reply, EventAction, EventKind, Interaction,
};
use autobooru::model::Hook;
use autobooru::task::{plan_hook_jobs, POST_INTERVAL_SECS};
use autobooru::text::{
    is_white_space_char, join_texts, replace_chars, signed_decimal_text, split_words,
};

fn sample_post(id: i64) -> Post {
    Post {
        id,
        created_at: Timestamp { secs: 1431648000, nanos: 0 },
        uploader_id: 1,
        score: 10,
        source: None,
        md5: "abc".to_string(),
        last_comment_bumped_at: None,
        rating: "g".to_string(),
        image_width: 100,
        image_height: 200,
        tag_string: "hatsune_miku vocaloid 1girl".to_string(),
        fav_count: 3,
        file_ext: "png".to_string(),
        last_noted_at: None,
        parent_id: None,
        has_children: false,
        approver_id: Some(5),
        tag_count_general: 1,
        tag_count_artist: 1,
        tag_count_character: 1,
        tag_count_copyright: 1,
        file_size: 1234,
        up_score: 10,
        down_score: 0,
        is_pending: false,
        is_flagged: false,
        is_deleted: false,
        tag_count: 3,
        updated_at: None,
        is_banned: false,
        pixiv_id: None,
        last_commented_at: None,
        has_active_children: false,
        bit_flags: 0,
        tag_count_meta: 0,
        has_large: false,
        has_visible_children: false,
        tag_string_general: "1girl  long_hair\tsmile".to_string(),
        tag_string_character: "hatsune_miku".to_string(),
        tag_string_copyright: "vocaloid".to_string(),
        tag_string_artist: "".to_string(),
        tag_string_meta: "".to_string(),
        file_url: "https://cdn.donmai.us/original/ab/cd/abcd.png".to_string(),
        large_file_url: None,
        preview_file_url: None,
    }
}

fn sample_hook(tag: &str, hook_id: i64) -> Hook {
    Hook {
        guild_id: 11,
        channel_id: 22,
        enabled: false,
        hook_id,
        hook_token: "tok".to_string(),
        tag: tag.to_string(),
    }
}

#[test]
fn split_words_drops_all_whitespace() {
    let w = split_words("  a  bc\td\n\u{3000}e ");
    assert_eq!(w, vec!["a", "bc", "d", "e"]);
    assert!(split_words("").is_empty());
    assert!(split_words(" \t\n").is_empty());
}

#[test]
fn whitespace_is_unicode_white_space() {
    for c in [' ', '\t', '\n', '\u{b}', '\u{c}', '\r', '\u{85}', '\u{a0}', '\u{2003}', '\u{3000}'] {
        assert!(is_white_space_char(c));
        assert_eq!(is_white_space_char(c), c.is_whitespace());
    }
    for c in ['a', '_', '\u{200b}', 'щ'] {
        assert!(!is_white_space_char(c));
    }
}

#[test]
fn join_texts_puts_separator_between() {
    let parts = vec!["a".to_string(), "b".to_string(), "c".to_string()];
    assert_eq!(join_texts(&parts, ", "), "a, b, c");
    assert_eq!(join_texts(&vec!["x".to_string()], ", "), "x");
    assert_eq!(join_texts(&vec![], ", "), "");
}

#[test]
fn replace_chars_replaces_every_occurrence() {
    assert_eq!(replace_chars("long_hair_x", '_', ' '), "long hair x");
    assert_eq!(replace_chars("plain", '_', ' '), "plain");
}

#[test]
fn decimal_text_matches_display() {
    for n in [0i64, 7, 10, 42, -1, -42, 1234567890, i64::MAX, i64::MIN] {
        assert_eq!(signed_decimal_text(n), n.to_string());
    }
}

#[test]
fn query_params_replace_keeps_position() {
    let mut q = QueryParams::new();
    assert!(q.is_empty());
    q.insert("a".to_string(), "1".to_string());
    q.insert("b".to_string(), "2".to_string());
    q.insert("a".to_string(), "3".to_string());
    assert!(!q.is_empty());
    assert_eq!(q.to_query_string(), "a=3&b=2");
}

#[test]
fn client_new_uses_danbooru() {
    let c = BooruClient::new("user".to_string(), "key".to_string());
    assert_eq!(c.endpoint, "https://danbooru.donmai.us");
    assert_eq!(c.username, "user");
    assert_eq!(c.api_key, "key");
}

#[test]
fn get_url_always_adds_credentials() {
    let c = BooruClient::new("user".to_string(), "key".to_string());
    assert_eq!(
        c.get_url("posts.json", None),
        "https://danbooru.donmai.us/posts.json?login=user&api_key=key"
    );
    let mut q = QueryParams::new();
    q.insert("login".to_string(), "someone".to_string());
    q.insert("tags".to_string(), "cat".to_string());
    assert_eq!(
        c.get_url("x", Some(q)),
        "https://danbooru.donmai.us/x?login=user&tags=cat&api_key=key"
    );
}

#[test]
fn post_urls() {
    let c = BooruClient::new("u".to_string(), "k".to_string());
    assert_eq!(
        c.first_post_url("cat_ears"),
        "https://danbooru.donmai.us/posts.json?limit=1&tags=cat_ears&login=u&api_key=k"
    );
    assert_eq!(
        c.random_post_url("cat_ears"),
        "https://danbooru.donmai.us/posts/random.json?tags=cat_ears&login=u&api_key=k"
    );
}

#[test]
fn first_post_takes_the_first() {
    let posts = vec![sample_post(1), sample_post(2), sample_post(3)];
    assert_eq!(first_post(posts).id, 1);
}

#[test]
fn to_separate_empty_is_unknown() {
    assert_eq!(to_separate(String::new()), "Unknown");
}

#[test]
fn to_separate_whitespace_only_is_empty() {
    assert_eq!(to_separate("   ".to_string()), "");
}

#[test]
fn to_separate_links_each_tag() {
    assert_eq!(
        to_separate("hatsune_miku  vocaloid".to_string()),
        "[Hatsune Miku](https://danbooru.donmai.us/posts?tags=hatsune_miku), \
         [Vocaloid](https://danbooru.donmai.us/posts?tags=vocaloid)"
    );
}

#[test]
fn tag_link_uses_title_case() {
    assert_eq!(
        tag_link_text("kagamine_rin"),
        "[Kagamine Rin](https://danbooru.donmai.us/posts?tags=kagamine_rin)"
    );
}

#[test]
fn post_page_link_has_id() {
    assert_eq!(post_page_link(12345), "https://danbooru.donmai.us/posts/12345");
    assert_ne!(post_page_link(1), post_page_link(11));
}

#[test]
fn general_tags_as_code_block() {
    assert_eq!(general_tags_text("a  b\tc"), "```\na, b, c\n```");
    assert_eq!(general_tags_text(""), "```\n\n```");
}

#[test]
fn hook_embed_shows_everything() {
    let post = sample_post(99);
    let e = hook_embed(&post);
    assert_eq!(e.title, "щ（゜ロ゜щ）");
    assert_eq!(e.description.as_deref(), Some("```\n1girl, long_hair, smile\n```"));
    assert_eq!(e.color, 0x71368A);
    assert_eq!(e.color, EMBED_COLOR);
    assert_eq!(e.image_url, post.file_url);
    assert_eq!(e.fields.len(), 3);
    assert_eq!(e.fields[0].name, "Artist");
    assert_eq!(e.fields[0].value, "Unknown");
    assert!(e.fields[0].inline);
    assert_eq!(e.fields[1].name, "Copyright");
    assert_eq!(
        e.fields[1].value,
        "[Vocaloid](https://danbooru.donmai.us/posts?tags=vocaloid)"
    );
    assert!(e.fields[1].inline);
    assert_eq!(e.fields[2].name, "Character");
    assert_eq!(
        e.fields[2].value,
        "[Hatsune Miku](https://danbooru.donmai.us/posts?tags=hatsune_miku)"
    );
    assert!(!e.fields[2].inline);
    assert_eq!(e.timestamp.as_deref(), Some("2015-05-15T00:00:00+00:00"));
    assert_eq!(e.button_label, "View on Danbooru");
    assert_eq!(e.button_url, "https://danbooru.donmai.us/posts/99");
}

#[test]
fn hook_embed_timestamp_with_fraction() {
    let mut post = sample_post(1);
    post.created_at = Timestamp { secs: 1431648000, nanos: 500_000_000 };
    let e = hook_embed(&post);
    assert_eq!(e.timestamp.as_deref(), Some("2015-05-15T00:00:00.500+00:00"));
}

#[test]
fn image_embed_is_plain() {
    let post = sample_post(7);
    let e = image_embed(&post);
    assert_eq!(e.title, "щ（゜ロ゜щ）");
    assert!(e.description.is_none());
    assert_eq!(e.color, 0x71368A);
    assert_eq!(e.image_url, post.file_url);
    assert!(e.fields.is_empty());
    assert!(e.timestamp.is_none());
    assert_eq!(e.button_label, "View on Danbooru");
    assert_eq!(e.button_url, "https://danbooru.donmai.us/posts/7");
}

#[test]
fn registration_outside_guild() {
    let r = Registration::new("cat".to_string());
    let (r, a) = r.step(RegistrationEvent::Invoked { guild_id: None, channel_id: 5 });
    assert!(r.is_finished());
    match a {
        RegistrationAction::Reply { message } => {
            assert_eq!(message, "このコマンドはサーバー内でのみ使用できます")
        }
        other => panic!("unexpected {:?}", other),
    }
}

#[test]
fn registration_already_registered() {
    let r = Registration::new("cat".to_string());
    let (r, a) = r.step(RegistrationEvent::Invoked { guild_id: Some(1), channel_id: 2 });
    match a {
        RegistrationAction::LookUpHooks { guild_id, channel_id } => {
            assert_eq!((guild_id, channel_id), (1, 2))
        }
        other => panic!("unexpected {:?}", other),
    }
    let (r, a) = r.step(RegistrationEvent::HooksFound { hooks: vec![sample_hook("dog", 3)] });
    assert!(r.is_finished());
    match a {
        RegistrationAction::Reply { message } => assert_eq!(
            message,
            "このチャンネルは既に登録済みです\n`/autobooru delete`で削除するか、`/autobooru edit`でタグを編集できます。\n現在のタグは `dog` です。"
        ),
        other => panic!("unexpected {:?}", other),
    }
}

#[test]
fn registration_webhook_without_token() {
    let r = Registration::new("cat".to_string());
    let (r, _) = r.step(RegistrationEvent::Invoked { guild_id: Some(1), channel_id: 2 });
    let (r, a) = r.step(RegistrationEvent::HooksFound { hooks: vec![] });
    match a {
        RegistrationAction::CreateWebhook { channel_id, name, avatar } => {
            assert_eq!(channel_id, 2);
            assert_eq!(name, "Autobooru");
            assert!(avatar.starts_with("https://cdn.discordapp.com/app-icons/"));
        }
        other => panic!("unexpected {:?}", other),
    }
    let (r, a) = r.step(RegistrationEvent::WebhookCreated { hook_id: 9, token: None });
    assert!(r.is_finished());
    match a {
        RegistrationAction::Reply { message } => assert_eq!(message, "Webhookの作成に失敗しました"),
        other => panic!("unexpected {:?}", other),
    }
}

#[test]
fn registration_success_stores_enabled_hook() {
    let r = Registration::new("cat_ears".to_string());
    let big_guild: u64 = u64::MAX - 1;
    let (r, a) = r.step(RegistrationEvent::Invoked { guild_id: Some(big_guild), channel_id: 2 });
    match a {
        RegistrationAction::LookUpHooks { guild_id, .. } => assert_eq!(guild_id, -2),
        other => panic!("unexpected {:?}", other),
    }
    let (r, _) = r.step(RegistrationEvent::HooksFound { hooks: vec![] });
    assert_eq!(r.phase, RegistrationPhase::CreatingWebhook);
    let (r, a) = r.step(RegistrationEvent::WebhookCreated {
        hook_id: 77,
        token: Some("secret".to_string()),
    });
    match a {
        RegistrationAction::StoreHook { hook } => {
            assert_eq!(hook.guild_id, -2);
            assert_eq!(hook.channel_id, 2);
            assert!(hook.enabled);
            assert_eq!(hook.hook_id, 77);
            assert_eq!(hook.hook_token, "secret");
            assert_eq!(hook.tag, "cat_ears");
        }
        other => panic!("unexpected {:?}", other),
    }
    let (r, a) = r.step(RegistrationEvent::HookStored);
    assert!(r.is_finished());
    match a {
        RegistrationAction::Reply { message } => {
            assert_eq!(message, "自動投稿を開始しました\n\nタグ: `cat_ears`")
        }
        other => panic!("unexpected {:?}", other),
    }
    let (r, a) = r.step(RegistrationEvent::HookStored);
    assert!(r.is_finished());
    assert!(matches!(a, RegistrationAction::Nothing));
}

#[test]
fn registration_unexpected_event_ends() {
    let r = Registration::new("cat".to_string());
    let (r, a) = r.step(RegistrationEvent::HookStored);
    assert!(r.is_finished());
    assert!(matches!(a, RegistrationAction::Nothing));
}

#[test]
fn events_are_dispatched() {
    assert_eq!(handle_event(EventKind::InteractionCreate), EventAction::HandleInteraction);
    assert_eq!(handle_event(EventKind::CacheReady), EventAction::SpawnTasks);
    assert_eq!(handle_event(EventKind::Other), EventAction::Ignore);
}

#[test]
fn test_button_is_answered() {
    assert_eq!(classify_interaction(true, "test"), Interaction::Test);
    assert_eq!(classify_interaction(true, "other"), Interaction::Unknown);
    assert_eq!(classify_interaction(false, "test"), Interaction::Unknown);
    assert_eq!(interaction_reply(Interaction::Test).as_deref(), Some("test"));
    assert_eq!(interaction_reply(Interaction::Unknown), None);
}

#[test]
fn every_hook_gets_a_job() {
    let c = BooruClient::new("u".to_string(), "k".to_string());
    let hooks = vec![sample_hook("cat", 5), sample_hook("dog", -1)];
    let jobs = plan_hook_jobs(&c, &hooks);
    assert_eq!(jobs.len(), 2);
    assert_eq!(
        jobs[0].post_url,
        "https://danbooru.donmai.us/posts/random.json?tags=cat&login=u&api_key=k"
    );
    assert_eq!(jobs[0].webhook_id, 5);
    assert_eq!(jobs[0].webhook_token, "tok");
    assert_eq!(jobs[1].webhook_id, u64::MAX);
    assert_eq!(POST_INTERVAL_SECS, 60);
}

fn embed_timestamp(secs: i64, nanos: u32) -> Option<String> {
    let mut post = sample_post(1);
    post.created_at = Timestamp { secs, nanos };
    hook_embed(&post).timestamp
}

#[test]
fn embed_timestamp_covers_chronos_whole_range() {
    let min = chrono::DateTime::<chrono::Utc>::MIN_UTC;
    let max = chrono::DateTime::<chrono::Utc>::MAX_UTC;
    assert_eq!(min.timestamp(), -8_334_601_228_800);
    assert_eq!(max.timestamp(), 8_210_266_876_799);
    assert_eq!(embed_timestamp(min.timestamp(), 0), Some(min.to_rfc3339()));
    assert_eq!(embed_timestamp(max.timestamp(), max.timestamp_subsec_nanos()), Some(max.to_rfc3339()));
    assert_eq!(embed_timestamp(min.timestamp() - 1, 0), None);
    assert_eq!(embed_timestamp(max.timestamp() + 1, 0), None);
    assert_eq!(embed_timestamp(0, 999_999_999).as_deref(), Some("1970-01-01T00:00:00.999999999+00:00"));
}

#[test]
fn embed_timestamp_leap_second() {
    assert_eq!(embed_timestamp(59, 1_500_000_000).as_deref(), Some("1970-01-01T00:00:60.500+00:00"));
    assert_eq!(embed_timestamp(58, 1_500_000_000), None);
    assert_eq!(embed_timestamp(59, 2_000_000_000), None);
    assert_eq!(embed_timestamp(-1, 1_000_000_000).as_deref(), Some("1969-12-31T23:59:60+00:00"));
    assert_eq!(embed_timestamp(0, 1_000_000_000), None);
}

#[test]
fn errors_are_dispatched() {
    assert_eq!(on_error(FrameworkErrorKind::Command), ErrorAction::LogCommandError);
    assert_eq!(on_error(FrameworkErrorKind::Other), ErrorAction::UseDefaultHandler);
}

#[test]
fn a_job_gives_up_at_its_first_failure() {
    assert_eq!(
        job_next(JobStage::FetchPost, true),
        JobAction::Continue { stage: JobStage::OpenWebhook }
    );
    assert_eq!(job_next(JobStage::FetchPost, false), JobAction::GiveUp);
    assert_eq!(
        job_next(JobStage::OpenWebhook, true),
        JobAction::Continue { stage: JobStage::Send }
    );
    assert_eq!(job_next(JobStage::OpenWebhook, false), JobAction::GiveUp);
    assert_eq!(job_next(JobStage::Send, true), JobAction::Finish);
    assert_eq!(job_next(JobStage::Send, false), JobAction::GiveUp);
    assert_eq!(job_next(JobStage::Done, false), JobAction::Finish);
}

#[test]
fn tag_link_format() {
    assert_eq!(
        format_tag_link("Kagamine Rin", "kagamine_rin"),
        "[Kagamine Rin](https://danbooru.donmai.us/posts?tags=kagamine_rin)"
    );
    assert_eq!(format_tag_link("", ""), "[](https://danbooru.donmai.us/posts?tags=)");
}
