use lot::{decode_quotes, encode_quotes, pick, pick_random, Error, Quote, QuoteManager};

fn quote(source: Option<&str>, text: &str) -> Quote {
    Quote { source: source.map(|s| s.to_string()), text: text.to_string() }
}

fn sample() -> Vec<Quote> {
    vec![
        quote(Some("Lorem Ipsum"), "Lorem ipsum dolor sit amet"),
        quote(None, "Just a line"),
        quote(Some("Zoë\n\n— again"), "Ça va"),
        quote(None, "Last"),
    ]
}

#[test]
fn round_trip_keeps_records_and_order() {
    let quotes = sample();
    let bytes = encode_quotes(&quotes).unwrap();
    assert_eq!(decode_quotes(&bytes).unwrap(), quotes);
}

#[test]
fn round_trip_of_empty_collection() {
    let bytes = encode_quotes(&Vec::new()).unwrap();
    assert_eq!(bytes, vec![0u8; 8]);
    assert_eq!(decode_quotes(&bytes).unwrap(), Vec::<Quote>::new());
}

#[test]
fn encoding_is_deterministic() {
    assert_eq!(encode_quotes(&sample()).unwrap(), encode_quotes(&sample()).unwrap());
}

#[test]
fn encoding_starts_with_record_count() {
    let bytes = encode_quotes(&sample()).unwrap();
    assert_eq!(&bytes[..8], &[4u8, 0, 0, 0, 0, 0, 0, 0]);
    assert!(bytes.len() > 8);
}

#[test]
fn truncated_cache_fails_to_decode() {
    let bytes = encode_quotes(&sample()).unwrap();
    assert!(matches!(decode_quotes(&bytes[..bytes.len() - 3]), Err(Error::Serialize(_))));
    assert!(matches!(decode_quotes(&[1u8, 2, 3]), Err(Error::Serialize(_))));
}

#[test]
fn decoding_is_deterministic() {
    let bytes = encode_quotes(&sample()).unwrap();
    assert_eq!(decode_quotes(&bytes).unwrap(), decode_quotes(&bytes).unwrap());
    assert!(matches!(decode_quotes(&[]), Err(Error::Serialize(_))));
    assert!(matches!(decode_quotes(&[]), Err(Error::Serialize(_))));
}

#[test]
fn pick_from_empty_fails() {
    assert!(matches!(pick(&Vec::new(), 0), Err(Error::EmptyCollection)));
    let mut rng = rand::thread_rng();
    assert!(matches!(pick_random(&Vec::new(), &mut rng), Err(Error::EmptyCollection)));
}

#[test]
fn pick_by_index() {
    let quotes = sample();
    assert_eq!(pick(&quotes, 2).unwrap(), &quotes[2]);
}

#[test]
fn pick_random_from_one_quote() {
    let quotes = vec![quote(Some("A"), "Only")];
    let mut rng = rand::thread_rng();
    for _ in 0..20 {
        assert_eq!(pick_random(&quotes, &mut rng).unwrap(), &quotes[0]);
    }
}

#[test]
fn pick_random_is_roughly_uniform() {
    let quotes = vec![quote(None, "a"), quote(None, "b"), quote(None, "c")];
    let mut rng = rand::thread_rng();
    let mut counts = [0usize; 3];
    for _ in 0..3000 {
        let picked = pick_random(&quotes, &mut rng).unwrap();
        let i = quotes.iter().position(|q| q == picked).unwrap();
        counts[i] += 1;
    }
    for c in counts {
        assert!(c > 800 && c < 1200, "counts {:?}", counts);
    }
}

#[test]
fn manager_keeps_paths() {
    let m = QuoteManager::new("/data/quotes", "/cache/quotes.db");
    assert_eq!(m.quotes_path(), "/data/quotes");
    assert_eq!(m.cache_path(), "/cache/quotes.db");
}
