use move_binary_format::constants::SIGNATURE_TOKEN_DEPTH_MAX;
use move_binary_format::deserializer::load_signature_token_test_entry;
use move_binary_format::errors::{Message, StatusCode};
use move_binary_format::file_format::{SignatureToken, StructHandleIndex};

fn nested_vectors(count: usize) -> Vec<u8> {
    let mut bytes = vec![0x0A; count];
    bytes.push(0x02);
    bytes
}

fn depth(token: &SignatureToken) -> usize {
    match token {
        SignatureToken::Vector(inner)
        | SignatureToken::Reference(inner)
        | SignatureToken::MutableReference(inner) => 1 + depth(inner),
        SignatureToken::StructInstantiation(_, args) => {
            1 + args.iter().map(depth).max().unwrap_or(0)
        }
        _ => 0,
    }
}

#[test]
fn tokens_without_parts() {
    let cases = [
        (0x01u8, SignatureToken::Bool),
        (0x02, SignatureToken::U8),
        (0x03, SignatureToken::U64),
        (0x04, SignatureToken::U128),
        (0x05, SignatureToken::Address),
        (0x0C, SignatureToken::Signer),
        (0x0D, SignatureToken::U16),
        (0x0E, SignatureToken::U32),
        (0x0F, SignatureToken::U256),
    ];
    for (byte, token) in cases {
        assert_eq!(load_signature_token_test_entry(&[byte]).unwrap(), token);
    }
}

#[test]
fn tokens_with_indices() {
    assert_eq!(
        load_signature_token_test_entry(&[0x08, 0x85, 0x01]).unwrap(),
        SignatureToken::Struct(StructHandleIndex(133))
    );
    assert_eq!(
        load_signature_token_test_entry(&[0x09, 0x07]).unwrap(),
        SignatureToken::TypeParameter(7)
    );
    assert_eq!(
        load_signature_token_test_entry(&[0x09, 0xFF, 0xFF, 0x03]).unwrap(),
        SignatureToken::TypeParameter(65535)
    );
    assert_eq!(
        load_signature_token_test_entry(&[0x09, 0x80, 0x80, 0x04]).unwrap_err().message,
        Message::UlebGreaterThanMax
    );
}

#[test]
fn tokens_with_one_part() {
    assert_eq!(
        load_signature_token_test_entry(&[0x06, 0x0A, 0x07, 0x01]).unwrap(),
        SignatureToken::Reference(Box::new(SignatureToken::Vector(Box::new(
            SignatureToken::MutableReference(Box::new(SignatureToken::Bool))
        ))))
    );
}

#[test]
fn generic_struct_takes_its_arguments_in_order() {
    // Foo<u8, Foo<u64, bool, Bar>, address>
    let bytes = [0x0B, 0x00, 0x03, 0x02, 0x0B, 0x00, 0x03, 0x03, 0x01, 0x08, 0x01, 0x05];
    let foo = StructHandleIndex(0);
    let bar = StructHandleIndex(1);
    assert_eq!(
        load_signature_token_test_entry(&bytes).unwrap(),
        SignatureToken::StructInstantiation(
            foo,
            vec![
                SignatureToken::U8,
                SignatureToken::StructInstantiation(
                    foo,
                    vec![SignatureToken::U64, SignatureToken::Bool, SignatureToken::Struct(bar)]
                ),
                SignatureToken::Address,
            ]
        )
    );
}

#[test]
fn only_the_first_token_is_read() {
    assert_eq!(load_signature_token_test_entry(&[0x01, 0x0A]).unwrap(), SignatureToken::Bool);
    assert_eq!(
        load_signature_token_test_entry(&[0x0A, 0x01, 0xFF]).unwrap(),
        SignatureToken::Vector(Box::new(SignatureToken::Bool))
    );
}

#[test]
fn struct_instantiation_without_arguments_is_malformed() {
    let error = load_signature_token_test_entry(&[0x0B, 0x05, 0x00]).unwrap_err();
    assert_eq!(error.major_status, StatusCode::Malformed);
    assert_eq!(error.message, Message::StructInstWithArityZero);
    // The same inside another token.
    let error = load_signature_token_test_entry(&[0x0A, 0x0B, 0x05, 0x00]).unwrap_err();
    assert_eq!(error.message, Message::StructInstWithArityZero);
}

#[test]
fn arity_is_bounded_by_255() {
    let error = load_signature_token_test_entry(&[0x0B, 0x00, 0x80, 0x02]).unwrap_err();
    assert_eq!(error.message, Message::UlebGreaterThanMax);
    let mut bytes = vec![0x0B, 0x00, 0xFF, 0x01];
    bytes.extend(vec![0x01; 255]);
    match load_signature_token_test_entry(&bytes).unwrap() {
        SignatureToken::StructInstantiation(_, args) => assert_eq!(args.len(), 255),
        other => panic!("not a generic struct: {:?}", other),
    }
}

#[test]
fn unknown_tag_is_rejected() {
    for byte in [0x00u8, 0x10, 0xFF] {
        let error = load_signature_token_test_entry(&[byte]).unwrap_err();
        assert_eq!(error.major_status, StatusCode::UnknownSerializedType);
        assert_eq!(error.message, Message::Absent);
    }
}

#[test]
fn cut_token_is_malformed() {
    for bytes in [vec![], vec![0x0A], vec![0x0B, 0x00, 0x02, 0x01], vec![0x06, 0x07]] {
        let error = load_signature_token_test_entry(&bytes).unwrap_err();
        assert_eq!(error.major_status, StatusCode::Malformed);
        assert_eq!(error.message, Message::UnexpectedEof);
    }
    let error = load_signature_token_test_entry(&[0x08]).unwrap_err();
    assert_eq!(error.message, Message::BadUleb);
}

#[test]
fn depth_at_the_maximum_decodes() {
    // As many vectors around a leaf as the maximum: that many builders wait
    // when the byte of the leaf is read.
    let token =
        load_signature_token_test_entry(&nested_vectors(SIGNATURE_TOKEN_DEPTH_MAX)).unwrap();
    assert_eq!(depth(&token), SIGNATURE_TOKEN_DEPTH_MAX);
    assert_eq!(SIGNATURE_TOKEN_DEPTH_MAX, 32);
    let shallow = load_signature_token_test_entry(&nested_vectors(3)).unwrap();
    assert_eq!(depth(&shallow), 3);
}

#[test]
fn depth_above_the_maximum_is_malformed() {
    let error = load_signature_token_test_entry(&nested_vectors(SIGNATURE_TOKEN_DEPTH_MAX + 1))
        .unwrap_err();
    assert_eq!(error.major_status, StatusCode::Malformed);
    assert_eq!(error.message, Message::MaximumRecursionDepthReached);
    let error = load_signature_token_test_entry(&nested_vectors(100_000)).unwrap_err();
    assert_eq!(error.message, Message::MaximumRecursionDepthReached);
}

#[test]
fn depth_is_tested_before_the_next_byte_is_read() {
    // One vector more than the maximum and nothing behind: the missing byte
    // is not looked for.
    let error =
        load_signature_token_test_entry(&vec![0x0A; SIGNATURE_TOKEN_DEPTH_MAX + 1]).unwrap_err();
    assert_eq!(error.message, Message::MaximumRecursionDepthReached);
    // Nor is a byte that is no tag looked at.
    let mut bytes = vec![0x0A; SIGNATURE_TOKEN_DEPTH_MAX + 1];
    bytes.push(0x00);
    let error = load_signature_token_test_entry(&bytes).unwrap_err();
    assert_eq!(error.message, Message::MaximumRecursionDepthReached);
    // At the maximum the byte is read.
    let error =
        load_signature_token_test_entry(&vec![0x0A; SIGNATURE_TOKEN_DEPTH_MAX]).unwrap_err();
    assert_eq!(error.message, Message::UnexpectedEof);
    let mut bytes = vec![0x0A; SIGNATURE_TOKEN_DEPTH_MAX];
    bytes.push(0x00);
    let error = load_signature_token_test_entry(&bytes).unwrap_err();
    assert_eq!(error.major_status, StatusCode::UnknownSerializedType);
}

#[test]
fn depth_is_counted_through_arguments() {
    // A generic struct at the top, whose second argument is as deep as the
    // maximum allows below the top.
    let mut bytes = vec![0x0B, 0x00, 0x02, 0x01];
    bytes.extend(nested_vectors(SIGNATURE_TOKEN_DEPTH_MAX - 1));
    let token = load_signature_token_test_entry(&bytes).unwrap();
    assert_eq!(depth(&token), SIGNATURE_TOKEN_DEPTH_MAX);
    let mut bytes = vec![0x0B, 0x00, 0x02, 0x01];
    bytes.extend(nested_vectors(SIGNATURE_TOKEN_DEPTH_MAX));
    let error = load_signature_token_test_entry(&bytes).unwrap_err();
    assert_eq!(error.message, Message::MaximumRecursionDepthReached);
}

/// The bytes that a writer of the format puts down for a token.
fn token_bytes(token: &SignatureToken, out: &mut Vec<u8>) {
    match token {
        SignatureToken::Bool => out.push(0x01),
        SignatureToken::U8 => out.push(0x02),
        SignatureToken::U64 => out.push(0x03),
        SignatureToken::U128 => out.push(0x04),
        SignatureToken::Address => out.push(0x05),
        SignatureToken::Reference(inner) => {
            out.push(0x06);
            token_bytes(inner, out);
        }
        SignatureToken::MutableReference(inner) => {
            out.push(0x07);
            token_bytes(inner, out);
        }
        SignatureToken::Struct(handle) => {
            out.push(0x08);
            uleb(handle.0 as u64, out);
        }
        SignatureToken::TypeParameter(index) => {
            out.push(0x09);
            uleb(*index as u64, out);
        }
        SignatureToken::Vector(inner) => {
            out.push(0x0A);
            token_bytes(inner, out);
        }
        SignatureToken::StructInstantiation(handle, args) => {
            out.push(0x0B);
            uleb(handle.0 as u64, out);
            uleb(args.len() as u64, out);
            for arg in args {
                token_bytes(arg, out);
            }
        }
        SignatureToken::Signer => out.push(0x0C),
        SignatureToken::U16 => out.push(0x0D),
        SignatureToken::U32 => out.push(0x0E),
        SignatureToken::U256 => out.push(0x0F),
    }
}

fn uleb(mut value: u64, out: &mut Vec<u8>) {
    loop {
        let low = (value & 0x7f) as u8;
        value >>= 7;
        if value == 0 {
            out.push(low);
            return;
        }
        out.push(low | 0x80);
    }
}

#[test]
fn written_tokens_decode_to_themselves() {
    let tokens = vec![
        SignatureToken::U256,
        SignatureToken::Struct(StructHandleIndex(65535)),
        SignatureToken::TypeParameter(300),
        SignatureToken::Vector(Box::new(SignatureToken::Reference(Box::new(
            SignatureToken::Signer,
        )))),
        SignatureToken::StructInstantiation(
            StructHandleIndex(128),
            vec![
                SignatureToken::StructInstantiation(
                    StructHandleIndex(1),
                    vec![SignatureToken::U16, SignatureToken::TypeParameter(0)],
                ),
                SignatureToken::MutableReference(Box::new(SignatureToken::Vector(Box::new(
                    SignatureToken::U32,
                )))),
                SignatureToken::Address,
            ],
        ),
    ];
    for token in tokens {
        let mut bytes = vec![];
        token_bytes(&token, &mut bytes);
        assert_eq!(load_signature_token_test_entry(&bytes).unwrap(), token);
    }
}
