use json_digest::engine::{and_into, digest, hash_bits, hash_text, xor_into, zero_digest};
use json_digest::hash::{digest_width, hash, Backend};
use json_digest::value::{Number, Value};

const TEST_VECTOR_1: &str = r###"
{
    "a": [1,2,"3"],
    "b": false
}
"###;

const TEST_VECTOR_2: &str = r###"
{
    "b": false,
    "a": [1,2,"3"]
}
"###;

const TEST_VECTOR_3: &str = r###"
{
    "a": [1,2,"3"]
}
"###;

const TEST_VECTOR_4: &str = r###"
{
    "a": ["3",1,2]
}
"###;

const BACKENDS: [Backend; 3] = [Backend::Sha256, Backend::Sha512, Backend::Blake3];

fn tree(v: &serde_json::Value) -> Value {
    match v {
        serde_json::Value::Null => Value::Null,
        serde_json::Value::Bool(b) => Value::Bool(*b),
        serde_json::Value::Number(n) => {
            if n.is_i64() {
                Value::Number(Number::NegInt(n.as_i64().unwrap()))
            } else if n.is_u64() {
                Value::Number(Number::PosInt(n.as_u64().unwrap()))
            } else {
                Value::Number(Number::Float(n.as_f64().unwrap().to_bits()))
            }
        }
        serde_json::Value::String(s) => Value::String(s.clone()),
        serde_json::Value::Array(a) => Value::Array(a.iter().map(tree).collect()),
        serde_json::Value::Object(o) => {
            Value::Object(o.iter().map(|(k, v)| (k.clone(), tree(v))).collect())
        }
    }
}

fn parse(text: &str) -> Value {
    tree(&serde_json::from_str::<serde_json::Value>(text).unwrap())
}

fn text(s: &str) -> Value {
    Value::String(s.to_string())
}

fn uint(n: u64) -> Value {
    Value::Number(Number::PosInt(n))
}

fn and(a: &[u8], b: &[u8]) -> Vec<u8> {
    a.iter().zip(b.iter()).map(|(x, y)| x & y).collect()
}

fn xor(a: &[u8], b: &[u8]) -> Vec<u8> {
    a.iter().zip(b.iter()).map(|(x, y)| x ^ y).collect()
}

fn hex(s: &str) -> Vec<u8> {
    (0..s.len() / 2).map(|i| u8::from_str_radix(&s[2 * i..2 * i + 2], 16).unwrap()).collect()
}

#[test]
fn arrays_with_same_elements_in_diffent_orders_should_have_different_digests() {
    let v3 = parse(TEST_VECTOR_3);
    let mut buf3 = [0u8; 32];
    json_digest::blake3::json_digest(&mut buf3, &v3);

    let v4 = parse(TEST_VECTOR_4);
    let mut buf4 = [0u8; 32];
    json_digest::blake3::json_digest(&mut buf4, &v4);

    let mut acc = 0;
    for (b3, b4) in buf3.iter().zip(buf4.iter()) {
        acc ^= *b3 ^ *b4;
    }
    assert!(acc != 0);
}

#[test]
fn objects_with_the_same_properties_in_different_orders_should_have_the_same_digest() {
    let v1 = parse(TEST_VECTOR_1);
    let mut buf1 = [0u8; 32];
    json_digest::blake3::json_digest(&mut buf1, &v1);

    let v2 = parse(TEST_VECTOR_2);
    let mut buf2 = [0u8; 32];
    json_digest::blake3::json_digest(&mut buf2, &v2);

    for (b1, b2) in buf1.iter().zip(buf2.iter()) {
        assert_eq!(*b1, *b2);
    }
}

#[test]
fn sha256_arrays_with_same_elements_should_have_different_digests() {
    let v3 = parse(TEST_VECTOR_3);
    let mut buf3 = [0u8; 32];
    json_digest::sha256::json_digest(&mut buf3, &v3);

    let v4 = parse(TEST_VECTOR_4);
    let mut buf4 = [0u8; 32];
    json_digest::sha256::json_digest(&mut buf4, &v4);

    let mut acc = 0;
    for (b3, b4) in buf3.iter().zip(buf4.iter()) {
        acc ^= *b3 ^ *b4;
    }
    assert!(acc != 0);
}

#[test]
fn sha256_the_same_digest_is_produced_regardless_of_object_order() {
    let v1 = parse(TEST_VECTOR_1);
    let mut buf1 = [0u8; 32];
    json_digest::sha256::json_digest(&mut buf1, &v1);

    let v2 = parse(TEST_VECTOR_2);
    let mut buf2 = [0u8; 32];
    json_digest::sha256::json_digest(&mut buf2, &v2);

    for (b1, b2) in buf1.iter().zip(buf2.iter()) {
        assert_eq!(*b1, *b2);
    }
}

#[test]
fn sha512_arrays_with_same_elements_should_have_different_digests() {
    let v3 = parse(TEST_VECTOR_3);
    let mut buf3 = [0u8; 64];
    json_digest::sha512::json_digest(&mut buf3, &v3);

    let v4 = parse(TEST_VECTOR_4);
    let mut buf4 = [0u8; 64];
    json_digest::sha512::json_digest(&mut buf4, &v4);

    let mut acc = 0;
    for (b3, b4) in buf3.iter().zip(buf4.iter()) {
        acc ^= *b3 ^ *b4;
    }
    assert!(acc != 0);
}

#[test]
fn sha512_the_same_digest_is_produced_regardless_of_object_order() {
    let v1 = parse(TEST_VECTOR_1);
    let mut buf1 = [0u8; 64];
    json_digest::sha512::json_digest(&mut buf1, &v1);

    let v2 = parse(TEST_VECTOR_2);
    let mut buf2 = [0u8; 64];
    json_digest::sha512::json_digest(&mut buf2, &v2);

    for (b1, b2) in buf1.iter().zip(buf2.iter()) {
        assert_eq!(*b1, *b2);
    }
}

#[test]
fn hash_matches_published_vectors() {
    assert_eq!(
        hash(Backend::Sha256, b""),
        hex("e3b0c44298fc1c149afbf4c8996fb92427ae41e4649b934ca495991b7852b855")
    );
    assert_eq!(
        hash(Backend::Sha256, b"abc"),
        hex("ba7816bf8f01cfea414140de5dae2223b00361a396177a9cb410ff61f20015ad")
    );
    assert_eq!(
        hash(Backend::Sha512, b"abc"),
        hex("ddaf35a193617abacc417349ae20413112e6fa4e89a97ea20a9eeee64b55d39a2192992a274fc1a836ba3c23a3feebbd454d4423643ce80e2a9ac94fa54ca49f")
    );
    assert_eq!(
        hash(Backend::Blake3, b""),
        hex("af1349b9f5f9a1a6a0404dea36dcc9499bcb25c9adc112b7cc9a93cae41f3262")
    );
}

#[test]
fn hash_agrees_with_the_primitives() {
    let m = b"the quick brown fox";
    assert_eq!(hash(Backend::Sha256, m), sodiumoxide::crypto::hash::sha256::hash(m).0.to_vec());
    assert_eq!(hash(Backend::Sha512, m), sodiumoxide::crypto::hash::sha512::hash(m).0.to_vec());
    assert_eq!(hash(Backend::Blake3, m), blake3::hash(m).as_bytes().to_vec());
}

#[test]
fn widths() {
    assert_eq!(digest_width(Backend::Sha256), 32);
    assert_eq!(digest_width(Backend::Sha512), 64);
    assert_eq!(digest_width(Backend::Blake3), 32);
    for b in BACKENDS {
        assert_eq!(hash(b, b"x").len(), digest_width(b));
        assert_eq!(zero_digest(b), vec![0u8; digest_width(b)]);
    }
}

#[test]
fn hash_bits_hashes_big_endian_bytes() {
    for b in BACKENDS {
        assert_eq!(hash_bits(b, 0x0102030405060708), hash(b, &[1, 2, 3, 4, 5, 6, 7, 8]));
        assert_eq!(hash_bits(b, 0x3ff0000000000000), hash(b, &[0x3f, 0xf0, 0, 0, 0, 0, 0, 0]));
        assert_eq!(hash_bits(b, 0), hash(b, &[0u8; 8]));
    }
}

#[test]
fn hash_text_hashes_utf8_bytes() {
    for b in BACKENDS {
        assert_eq!(hash_text(b, &"a".to_string()), hash(b, b"a"));
        assert_eq!(hash_text(b, &"\u{e9}\u{20ac}".to_string()), hash(b, &[0xc3, 0xa9, 0xe2, 0x82, 0xac]));
        assert_eq!(hash_text(b, &String::new()), hash(b, b""));
    }
}

#[test]
fn and_into_and_xor_into_work_bytewise() {
    let mut d = vec![0b1100u8, 0xff, 0x00];
    and_into(&mut d, &vec![0b1010u8, 0x0f, 0xff]);
    assert_eq!(d, vec![0b1000u8, 0x0f, 0x00]);
    xor_into(&mut d, &vec![0b1010u8, 0xff, 0x55]);
    assert_eq!(d, vec![0b0010u8, 0xf0, 0x55]);
}

#[test]
fn sentinels_are_the_hashes_of_their_words() {
    for b in BACKENDS {
        assert_eq!(digest(b, &Value::Null), hash(b, b"NULL"));
        assert_eq!(digest(b, &Value::Bool(true)), hash(b, b"TRUE"));
        assert_eq!(digest(b, &Value::Bool(false)), hash(b, b"FALSE"));
    }
    assert_eq!(json_digest::sha256::NULL.to_vec(), hash(Backend::Sha256, b"NULL"));
    assert_eq!(json_digest::sha256::TRUE.to_vec(), hash(Backend::Sha256, b"TRUE"));
    assert_eq!(json_digest::sha256::FALSE.to_vec(), hash(Backend::Sha256, b"FALSE"));
    assert_eq!(json_digest::sha512::NULL.to_vec(), hash(Backend::Sha512, b"NULL"));
    assert_eq!(json_digest::sha512::TRUE.to_vec(), hash(Backend::Sha512, b"TRUE"));
    assert_eq!(json_digest::sha512::FALSE.to_vec(), hash(Backend::Sha512, b"FALSE"));
    assert_eq!(json_digest::blake3::NULL.to_vec(), hash(Backend::Blake3, b"NULL"));
    assert_eq!(json_digest::blake3::TRUE.to_vec(), hash(Backend::Blake3, b"TRUE"));
    assert_eq!(json_digest::blake3::FALSE.to_vec(), hash(Backend::Blake3, b"FALSE"));
}

#[test]
fn sentinels_are_pairwise_distinct_and_stable() {
    for b in BACKENDS {
        let n = digest(b, &Value::Null);
        let t = digest(b, &Value::Bool(true));
        let f = digest(b, &Value::Bool(false));
        assert_ne!(n, t);
        assert_ne!(n, f);
        assert_ne!(t, f);
        assert_eq!(n, digest(b, &Value::Null));
        // the same constant inside a collection, before it is fused
        let inside = digest(b, &Value::Array(vec![Value::Null]));
        assert_eq!(inside, and(&n, &hash_bits(b, 0)));
    }
}

#[test]
fn digest_is_deterministic() {
    for b in BACKENDS {
        let v = parse(TEST_VECTOR_1);
        assert_eq!(digest(b, &v), digest(b, &v));
        assert_eq!(digest(b, &v), digest(b, &parse(TEST_VECTOR_1)));
    }
}

#[test]
fn number_is_hashed_as_big_endian_double() {
    for b in BACKENDS {
        let one = hash(b, &1.0f64.to_bits().to_be_bytes());
        assert_eq!(digest(b, &uint(1)), one);
        assert_eq!(digest(b, &Value::Number(Number::NegInt(1))), one);
        assert_eq!(digest(b, &Value::Number(Number::Float(1.0f64.to_bits()))), one);
        assert_eq!(
            digest(b, &Value::Number(Number::NegInt(-7))),
            hash(b, &(-7.0f64).to_bits().to_be_bytes())
        );
        assert_eq!(
            digest(b, &Value::Number(Number::Float(2.5f64.to_bits()))),
            hash(b, &[0x40, 0x04, 0, 0, 0, 0, 0, 0])
        );
        assert_eq!(
            digest(b, &uint(u64::MAX)),
            hash(b, &(u64::MAX as f64).to_bits().to_be_bytes())
        );
    }
}

#[test]
fn integer_one_and_double_one_have_the_same_digest() {
    let a = parse("1");
    let b = parse("1.0");
    assert!(matches!(a, Value::Number(Number::NegInt(1))));
    assert!(matches!(b, Value::Number(Number::Float(_))));
    for k in BACKENDS {
        assert_eq!(digest(k, &a), digest(k, &b));
    }
    let mut x = [0u8; 32];
    let mut y = [0u8; 32];
    json_digest::sha256::json_digest(&mut x, &a);
    json_digest::sha256::json_digest(&mut y, &b);
    assert_eq!(x, y);
}

#[test]
fn string_is_hashed_as_utf8() {
    for b in BACKENDS {
        assert_eq!(digest(b, &text("3")), hash(b, b"3"));
        assert_eq!(digest(b, &text("")), hash(b, b""));
        assert_ne!(digest(b, &text("1")), digest(b, &uint(1)));
    }
}

#[test]
fn empty_array_and_empty_object_are_all_zero() {
    for b in BACKENDS {
        let a = digest(b, &Value::Array(vec![]));
        let o = digest(b, &Value::Object(vec![]));
        assert_eq!(a, vec![0u8; digest_width(b)]);
        assert_eq!(a, o);
        assert_eq!(digest(b, &parse("[]")), digest(b, &parse("{}")));
    }
}

#[test]
fn array_binds_each_element_to_its_position() {
    for b in BACKENDS {
        let d = digest(b, &Value::Array(vec![uint(1), uint(2), text("3")]));
        let t0 = and(&hash(b, &1.0f64.to_bits().to_be_bytes()), &hash(b, &0.0f64.to_bits().to_be_bytes()));
        let t1 = and(&hash(b, &2.0f64.to_bits().to_be_bytes()), &hash(b, &1.0f64.to_bits().to_be_bytes()));
        let t2 = and(&hash(b, b"3"), &hash(b, &2.0f64.to_bits().to_be_bytes()));
        assert_eq!(d, xor(&xor(&t0, &t1), &t2));
    }
}

#[test]
fn object_binds_each_value_to_its_key() {
    for b in BACKENDS {
        let v = Value::Object(vec![
            ("a".to_string(), Value::Array(vec![uint(1)])),
            ("b".to_string(), Value::Bool(false)),
        ]);
        let inner = and(&hash(b, &1.0f64.to_bits().to_be_bytes()), &hash(b, &[0u8; 8]));
        let ta = and(&inner, &hash(b, b"a"));
        let tb = and(&hash(b, b"FALSE"), &hash(b, b"b"));
        assert_eq!(digest(b, &v), xor(&ta, &tb));
    }
}

#[test]
fn nested_objects_ignore_key_order_under_every_backend() {
    let v1 = Value::Object(vec![
        ("x".to_string(), Value::Object(vec![("p".to_string(), uint(1)), ("q".to_string(), Value::Null)])),
        ("y".to_string(), Value::Array(vec![Value::Object(vec![
            ("k".to_string(), text("v")),
            ("l".to_string(), Value::Bool(true)),
        ])])),
        ("z".to_string(), uint(3)),
    ]);
    let v2 = Value::Object(vec![
        ("z".to_string(), uint(3)),
        ("y".to_string(), Value::Array(vec![Value::Object(vec![
            ("l".to_string(), Value::Bool(true)),
            ("k".to_string(), text("v")),
        ])])),
        ("x".to_string(), Value::Object(vec![("q".to_string(), Value::Null), ("p".to_string(), uint(1))])),
    ]);
    for b in BACKENDS {
        assert_eq!(digest(b, &v1), digest(b, &v2));
    }
}

#[test]
fn arrays_are_order_sensitive_under_every_backend() {
    for b in BACKENDS {
        assert_ne!(digest(b, &parse(TEST_VECTOR_3)), digest(b, &parse(TEST_VECTOR_4)));
        assert_eq!(digest(b, &parse(TEST_VECTOR_1)), digest(b, &parse(TEST_VECTOR_2)));
        assert_ne!(
            digest(b, &Value::Array(vec![uint(1), uint(2)])),
            digest(b, &Value::Array(vec![uint(2), uint(1)]))
        );
    }
}

#[test]
fn json_digest_folds_into_the_accumulator() {
    let v = parse(TEST_VECTOR_1);
    let d = digest(Backend::Sha256, &v);
    let mut acc = [0u8; 32];
    json_digest::sha256::json_digest(&mut acc, &v);
    assert_eq!(acc.to_vec(), d);
    json_digest::sha256::json_digest(&mut acc, &v);
    assert_eq!(acc, [0u8; 32]);

    let mut acc = [0x5au8; 32];
    json_digest::blake3::json_digest(&mut acc, &v);
    assert_eq!(acc.to_vec(), xor(&[0x5au8; 32], &digest(Backend::Blake3, &v)));

    let mut acc = [0xffu8; 64];
    json_digest::sha512::json_digest(&mut acc, &v);
    assert_eq!(acc.to_vec(), xor(&[0xffu8; 64], &digest(Backend::Sha512, &v)));
}

#[test]
fn a_swap_shows_where_digests_and_masks_both_differ() {
    for b in BACKENDS {
        let d1 = digest(b, &Value::Array(vec![uint(1), text("3")]));
        let d2 = digest(b, &Value::Array(vec![text("3"), uint(1)]));
        let dx = digest(b, &uint(1));
        let dy = digest(b, &text("3"));
        let m0 = hash_bits(b, 0);
        let m1 = hash_bits(b, 1.0f64.to_bits());
        assert_eq!(xor(&d1, &d2), and(&xor(&dx, &dy), &xor(&m0, &m1)));
        assert_ne!(d1, d2);
        // exchanging two equal elements cannot show
        let e1 = digest(b, &Value::Array(vec![uint(1), Value::Number(Number::Float(1.0f64.to_bits()))]));
        let e2 = digest(b, &Value::Array(vec![Value::Number(Number::Float(1.0f64.to_bits())), uint(1)]));
        assert_eq!(e1, e2);
    }
}

#[test]
fn array_positions_are_hashed_as_doubles() {
    for b in BACKENDS {
        let items: Vec<Value> = (0..5).map(|_| Value::Bool(true)).collect();
        let mut expected = vec![0u8; digest_width(b)];
        for i in 0..5u64 {
            let mask = hash(b, &(i as f64).to_bits().to_be_bytes());
            expected = xor(&expected, &and(&hash(b, b"TRUE"), &mask));
        }
        assert_eq!(digest(b, &Value::Array(items)), expected);
    }
}
