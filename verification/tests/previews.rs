use stoat_policy::clock::Timestamp;
use stoat_policy::digest::hex;
use stoat_policy::embeds::{
    choose_links, collect_embeds, drop_quotes, embed_request, generate, links_to_preview,
    requests_for, strip_anchor, EmbedQueue, QUEUE_LIMIT,
};
use stoat_policy::error::Error;
use stoat_policy::previews::{
    content_hash, keep_copies_of_preview_images, new_file_hash, point_at_copy, CopyReply,
    CopyStage, Preview, PreviewConfig, PreviewCopy, MAX_PREVIEW_COPY_BYTES,
};

fn text(value: &str) -> String {
    value.to_string()
}

fn strings(list: &[&str]) -> Vec<String> {
    list.iter().map(|item| item.to_string()).collect()
}

#[test]
fn the_queue_is_first_come_first_served_and_bounded() {
    let mut queue = EmbedQueue::new();
    assert!(queue.next().is_none());
    for i in 0..QUEUE_LIMIT + 5 {
        queue.queue(text("channel"), format!("{i}"), text("content"));
    }
    for i in 0..QUEUE_LIMIT {
        let task = queue.next().unwrap();
        assert_eq!(task.id, format!("{i}"));
        assert_eq!(task.channel, "channel");
    }
    assert!(queue.next().is_none());
    queue.queue(text("c"), text("again"), text("x"));
    assert_eq!(queue.next().unwrap().id, "again");
}

#[test]
fn quoted_lines_are_emptied() {
    assert_eq!(drop_quotes("a\n> b\nc\n>d"), "a\n\nc\n");
    assert_eq!(drop_quotes(" > a"), " > a");
    assert_eq!(drop_quotes(""), "");
    assert_eq!(drop_quotes("\n"), "\n");
}

#[test]
fn links_lose_their_anchors_and_their_doubles() {
    assert_eq!(strip_anchor("https://a.b/c#d#e"), "https://a.b/c");
    assert_eq!(strip_anchor("#"), "");
    let found = strings(&["https://a/#1", "https://b/", "https://a/#2", "https://c/"]);
    assert_eq!(choose_links(&found, 5), strings(&["https://a/", "https://b/", "https://c/"]));
    assert_eq!(choose_links(&found, 2), strings(&["https://a/", "https://b/"]));
    assert!(choose_links(&found, 0).is_empty());
}

#[test]
fn links_are_found_outside_of_code_brackets_and_quotes() {
    let content = "see https://one.example/a#b and `https://code.example/`\n\
                   ```\nhttps://block.example/\n```\n<https://hidden.example/>\n\
                   > https://quoted.example/\nhttps://two.example/";
    assert_eq!(
        links_to_preview(content, 5),
        strings(&["https://one.example/a", "https://two.example/"])
    );
    assert!(links_to_preview("write to someone@example.org", 5).is_empty());
}

#[test]
fn requests_carry_the_link_escaped() {
    assert_eq!(
        embed_request("http://january", "https://a.b/c d?e=ü&f=%"),
        "http://january/embed?url=https%3A%2F%2Fa.b%2Fc%20d%3Fe%3D%C3%BC%26f%3D%25"
    );
    assert_eq!(embed_request("h", "aZ09-_.~!*'()"), "h/embed?url=aZ09-_.~!*'()");
    assert_eq!(embed_request("h", "\"#<>^`{};@[\\]|$+,"), format!(
        "h/embed?url={}",
        "%22%23%3C%3E%5E%60%7B%7D%3B%40%5B%5C%5D%7C%24%2B%2C"
    ));
}

#[test]
fn a_message_without_links_or_previews_is_not_touched() {
    assert_eq!(generate("no links", "http://january", 5), Err(Error::LabelMe));
    assert_eq!(requests_for(&Vec::new(), "h"), Err(Error::LabelMe));
    assert_eq!(
        generate("https://one.example/", "http://january", 5),
        Ok(strings(&["http://january/embed?url=https%3A%2F%2Fone.example%2F"]))
    );
    assert_eq!(collect_embeds::<u8>(vec![None, None]), Err(Error::LabelMe));
    assert_eq!(collect_embeds(vec![None, Some(1), None, Some(2)]), Ok(vec![1, 2]));
}

fn preview(website: bool, gif: bool, url: Option<&str>) -> Preview {
    Preview { website, gif, image_url: url.map(|url| url.to_string()) }
}

#[test]
fn copies_are_kept_of_still_images_of_websites() {
    let mut previews = vec![
        preview(true, false, Some("a")),
        preview(true, true, Some("b")),
        preview(false, false, Some("c")),
        preview(true, false, None),
        preview(true, false, Some("d")),
    ];
    assert_eq!(keep_copies_of_preview_images(&previews), vec![0, 4]);
    point_at_copy(&mut previews, 0, Ok(text("copy")));
    point_at_copy(&mut previews, 4, Err(Error::ProxyError));
    assert_eq!(previews[0], preview(true, false, Some("copy")));
    assert_eq!(previews[4], preview(true, false, Some("d")));
}

fn config() -> PreviewConfig {
    PreviewConfig {
        autumn: text("https://files.example//"),
        january: text("https://proxy.example/"),
        default_bucket: text("bucket"),
        authentication_tag_bytes: 16,
    }
}

fn begun() -> PreviewCopy {
    PreviewCopy::keep_copy(config(), text("message"), text("author"), text("https://x.y/i.png"))
}

fn webp() -> CopyReply {
    CopyReply::Response { status: 200, content_type: Some(text("image/webp")) }
}

fn looked_up() -> PreviewCopy {
    begun()
        .advance(webp())
        .advance(CopyReply::Body { bytes: b"abc".to_vec() })
        .advance(CopyReply::Size { size: Some((3, 4)) })
}

const ABC: &str = "ba7816bf8f01cfea414140de5dae2223b00361a396177a9cb410ff61f20015ad";

#[test]
fn bytes_are_named_by_their_digest() {
    assert_eq!(content_hash(&b"abc".to_vec()), ABC);
    assert_eq!(hex(&vec![0, 15, 16, 255]), "000f10ff");
    assert_eq!(hex(&Vec::new()), "");
}

#[test]
fn an_image_of_our_own_is_kept_already() {
    let url = text("https://files.example/attachments/1");
    let copy = PreviewCopy::keep_copy(config(), text("m"), text("a"), url.clone());
    assert_eq!(copy.stage, CopyStage::Finished { outcome: Ok(url) });
}

#[test]
fn a_copy_is_fetched_stored_and_attached() {
    let copy = begun();
    assert_eq!(copy.stage, CopyStage::Fetching);
    assert_eq!(
        copy.request(),
        "https://proxy.example/proxy?url=https%3A%2F%2Fx.y%2Fi.png"
    );
    let copy = looked_up();
    assert!(matches!(&copy.stage, CopyStage::LookingUp { hash, .. } if hash == ABC));
    let copy = copy.advance(CopyReply::Refused { error: Error::NotFound });
    let CopyStage::Registering { file_hash, .. } = &copy.stage else { panic!("to be registered") };
    assert_eq!(file_hash.id, ABC);
    assert_eq!(file_hash.path, ABC);
    assert_eq!(file_hash.processed_hash, ABC);
    assert_eq!(file_hash.bucket_id, "bucket");
    assert_eq!(file_hash.iv, "");
    assert_eq!((file_hash.width, file_hash.height), (3, 4));
    assert_eq!(file_hash.content_type, "image/webp");
    assert_eq!(file_hash.size, 19);
    assert!(!file_hash.animated);
    let copy = copy.advance(CopyReply::Done);
    assert!(matches!(&copy.stage, CopyStage::Uploading { bytes, .. } if bytes == b"abc"));
    let copy = copy.advance(CopyReply::Uploaded { nonce: text("nonce") });
    assert!(matches!(&copy.stage, CopyStage::Sealing { file_hash } if file_hash.iv == "nonce"));
    let copy = copy.advance(CopyReply::Done);
    let CopyStage::Attaching { file } = &copy.stage else { panic!("to be attached") };
    assert_eq!(file.id.len(), 42);
    assert_eq!(file.hash, ABC);
    assert_eq!(file.tag, "attachments");
    assert_eq!(file.filename, "preview.webp");
    assert_eq!(file.uploader_id, "author");
    assert_eq!(file.message_id, "message");
    let expected = format!("https://files.example/attachments/{}", file.id);
    let copy = copy.advance(CopyReply::Done);
    assert_eq!(copy.stage, CopyStage::Finished { outcome: Ok(expected) });
}

#[test]
fn stored_bytes_are_used_again_unless_they_are_on_their_way() {
    let copy = looked_up().advance(CopyReply::Known { iv: text("nonce") });
    assert!(matches!(&copy.stage, CopyStage::Attaching { file } if file.hash == ABC));
    let copy = looked_up().advance(CopyReply::Known { iv: String::new() });
    assert_eq!(copy.stage, CopyStage::Finished { outcome: Err(Error::InternalError) });
}

#[test]
fn ids_of_files_differ() {
    let id = |copy: PreviewCopy| match copy.stage {
        CopyStage::Attaching { file } => file.id,
        _ => panic!("to be attached"),
    };
    let one = id(looked_up().advance(CopyReply::Known { iv: text("n") }));
    let other = id(looked_up().advance(CopyReply::Known { iv: text("n") }));
    assert_ne!(one, other);
}

fn ends(copy: PreviewCopy, error: Error) {
    assert_eq!(copy.stage, CopyStage::Finished { outcome: Err(error) });
}

#[test]
fn whatever_fails_ends_the_copy() {
    ends(begun().advance(CopyReply::Lost), Error::ProxyError);
    let not_found = CopyReply::Response { status: 404, content_type: Some(text("image/webp")) };
    ends(begun().advance(not_found), Error::ProxyError);
    let gif = CopyReply::Response { status: 200, content_type: Some(text("image/gif")) };
    ends(begun().advance(gif), Error::FileTypeNotAllowed);
    let untyped = CopyReply::Response { status: 299, content_type: None };
    ends(begun().advance(untyped), Error::FileTypeNotAllowed);
    let too_large = Error::FileTooLarge { max: MAX_PREVIEW_COPY_BYTES };
    ends(begun().advance(webp()).advance(CopyReply::Body { bytes: Vec::new() }), too_large);
    let bytes = vec![0; MAX_PREVIEW_COPY_BYTES + 1];
    let too_large = Error::FileTooLarge { max: 8 * 1024 * 1024 };
    ends(begun().advance(webp()).advance(CopyReply::Body { bytes }), too_large);
    ends(begun().advance(webp()).advance(CopyReply::Lost), Error::ProxyError);
    let measuring = begun().advance(webp()).advance(CopyReply::Body { bytes: vec![1] });
    ends(measuring.advance(CopyReply::Size { size: None }), Error::FileTypeNotAllowed);
    let registering = || looked_up().advance(CopyReply::Lost);
    let refused = || CopyReply::Refused { error: Error::NotFound };
    ends(registering().advance(refused()), Error::NotFound);
    let uploading = || registering().advance(CopyReply::Done);
    ends(uploading().advance(CopyReply::Lost), Error::InternalError);
    ends(uploading().advance(refused()), Error::NotFound);
    let sealing = uploading().advance(CopyReply::Uploaded { nonce: text("n") });
    ends(sealing.advance(refused()), Error::NotFound);
}

#[test]
fn a_stored_image_keeps_the_time() {
    let now = Timestamp { seconds: 5, nanoseconds: 6 };
    let stored = new_file_hash(&text("hash"), 10, 1, 2, &config(), now);
    assert_eq!(stored.created_at, now);
    assert_eq!(stored.size, 26);
}
