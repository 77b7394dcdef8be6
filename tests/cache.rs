use emojikanban::cache::{primary_uri, secondary_uri, validate_image, EmoteFetch, FetchAction, FetchEvent, FetchStage};
use emojikanban::plugin::{EmojiKanBan, EmoteData, EffectDraws};
use emojikanban::effects::Point;
use image::{DynamicImage, ImageFormat, Rgba, RgbaImage};
use std::collections::HashMap;

fn png() -> Vec<u8> {
    let img = RgbaImage::from_pixel(6, 6, Rgba([200, 100, 0, 255]));
    let mut out = std::io::Cursor::new(Vec::new());
    DynamicImage::ImageRgba8(img).write_to(&mut out, ImageFormat::Png).unwrap();
    out.into_inner()
}

/// Runs one acquisition against a store and a simulated network, counting requests.
fn acquire(
    id: &str,
    name: &str,
    store: &mut HashMap<String, (String, Vec<u8>)>,
    net: &HashMap<String, Vec<u8>>,
    requests: &mut Vec<String>,
) -> Option<EmoteData> {
    let (mut fetch, mut action) = EmoteFetch::start(id.to_string(), name.to_string());
    loop {
        action = match action {
            FetchAction::LookUp(key) => match store.get(&key) {
                Some((n, b)) => fetch.step(FetchEvent::Found(EmoteData { id: key.clone(), name: n.clone(), img: b.clone() })),
                None => fetch.step(FetchEvent::Missing),
            },
            FetchAction::Get(uri) => {
                requests.push(uri.clone());
                match net.get(&uri) {
                    Some(b) => fetch.step(FetchEvent::Fetched(b.clone())),
                    None => fetch.step(FetchEvent::FetchFailed),
                }
            }
            FetchAction::Store(d) => {
                store.insert(d.id.clone(), (d.name.clone(), d.img.clone()));
                return Some(d);
            }
            FetchAction::Deliver(d) => return Some(d),
            FetchAction::GiveUp => return None,
        };
    }
}

#[test]
fn uris_of_an_emote() {
    assert_eq!(primary_uri("42"), "https://static-cdn.jtvnw.net/emoticons/v2/42/default/light/3.0");
    assert_eq!(secondary_uri("42"), "https://static-cdn.jtvnw.net/emoticons/v1/42/3.0");
}

#[test]
fn validation_of_fetched_bytes() {
    assert!(validate_image(&png()));
    assert!(!validate_image(b"<html>404</html>"));
}

#[test]
fn chat_emote_end_to_end() {
    let mut store = HashMap::new();
    let mut net = HashMap::new();
    net.insert(secondary_uri("42"), png());
    let mut requests = vec![];
    let first = acquire("42", "Kappa", &mut store, &net, &mut requests).unwrap();
    assert_eq!(requests, vec![primary_uri("42"), secondary_uri("42")]);
    assert_eq!(first.img, png());
    assert_eq!(store.get("42").unwrap().0, "Kappa");
    let mut q = EmojiKanBan::new(1920, 1080, 0, 0, 10);
    let draws = EffectDraws { pick: 77, x_permille: 400, vx_permille: 10, life_us: 3_000_000, slide_x_permille: 300, worm_step: Point { x: 0, y: 504 } };
    assert!(q.admit_data(first.clone(), draws));
    assert_eq!(q.emote_queue[0].frames.len(), 1);
    let mut again = vec![];
    let second = acquire("42", "KappaRenamed", &mut store, &net, &mut again).unwrap();
    assert!(again.is_empty());
    assert_eq!(second.img, first.img);
    assert_eq!(second.name, "Kappa");
}

#[test]
fn cache_hit_twice_is_identical() {
    let mut store = HashMap::new();
    let mut net = HashMap::new();
    net.insert(primary_uri("7"), png());
    let mut requests = vec![];
    let a = acquire("7", "x", &mut store, &net, &mut requests).unwrap();
    assert_eq!(requests.len(), 1);
    let b = acquire("7", "x", &mut store, &net, &mut requests).unwrap();
    let c = acquire("7", "x", &mut store, &net, &mut requests).unwrap();
    assert_eq!(requests.len(), 1);
    assert_eq!(a.img, b.img);
    assert_eq!(b.img, c.img);
}

#[test]
fn both_addresses_fail() {
    let mut store = HashMap::new();
    let net = HashMap::new();
    let mut requests = vec![];
    assert!(acquire("9", "x", &mut store, &net, &mut requests).is_none());
    assert_eq!(requests.len(), 2);
    assert!(store.is_empty());
}

#[test]
fn invalid_bytes_are_not_stored() {
    let mut store = HashMap::new();
    let mut net = HashMap::new();
    net.insert(primary_uri("5"), b"not an image".to_vec());
    net.insert(secondary_uri("5"), png());
    let mut requests = vec![];
    assert!(acquire("5", "x", &mut store, &net, &mut requests).is_none());
    assert_eq!(requests.len(), 1);
    assert!(store.is_empty());
}

#[test]
fn finished_fetch_gives_up() {
    let (mut f, _) = EmoteFetch::start("1".to_string(), "n".to_string());
    assert!(matches!(f.step(FetchEvent::FetchFailed), FetchAction::GiveUp));
    assert_eq!(f.stage, FetchStage::Done);
    assert!(matches!(f.step(FetchEvent::Missing), FetchAction::GiveUp));
}
