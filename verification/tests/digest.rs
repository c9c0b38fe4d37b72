use dcrypt_core::compute_full_hash;
use dcrypt_core::digest::DIGEST_LEN;

fn unhex(text: &str) -> Vec<u8> {
    (0..text.len())
        .step_by(2)
        .map(|i| u8::from_str_radix(&text[i..i + 2], 16).unwrap())
        .collect()
}

#[test]
fn digest_of_nothing() {
    assert_eq!(
        compute_full_hash(Vec::new()),
        unhex("e3b0c44298fc1c149afbf4c8996fb92427ae41e4649b934ca495991b7852b855")
    );
}

#[test]
fn digest_of_abc() {
    assert_eq!(
        compute_full_hash(b"abc".to_vec()),
        unhex("ba7816bf8f01cfea414140de5dae2223b00361a396177a9cb410ff61f20015ad")
    );
}

#[test]
fn digest_of_two_blocks() {
    assert_eq!(
        compute_full_hash(b"abcdbcdecdefdefgefghfghighijhijkijkljklmklmnlmnomnopnopq".to_vec()),
        unhex("248d6a61d20638b8e5c026930c3e6039a33ce45964ff2167f6ecedd419db06c1")
    );
}

#[test]
fn digest_has_thirty_two_bytes() {
    assert_eq!(DIGEST_LEN, 32);
    assert_eq!(compute_full_hash(Vec::new()).len(), 32);
    assert_eq!(compute_full_hash(vec![7u8; 100_000]).len(), 32);
}

#[test]
fn digest_is_deterministic() {
    let content: Vec<u8> = (0..5000u32).map(|i| (i % 251) as u8).collect();
    assert_eq!(compute_full_hash(content.clone()), compute_full_hash(content));
}

#[test]
fn different_inputs_have_different_digests() {
    let inputs: Vec<Vec<u8>> = vec![
        Vec::new(),
        vec![0],
        vec![0, 0],
        vec![1],
        b"abc".to_vec(),
        b"abd".to_vec(),
        vec![0xff; 64],
        vec![0xff; 65],
    ];
    for (i, x) in inputs.iter().enumerate() {
        for (j, y) in inputs.iter().enumerate() {
            if i != j {
                assert_ne!(compute_full_hash(x.clone()), compute_full_hash(y.clone()));
            }
        }
    }
}

#[test]
fn digest_differs_from_its_input() {
    let content = vec![0u8; 32];
    assert_ne!(compute_full_hash(content.clone()), content);
}
