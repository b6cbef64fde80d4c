use chat_modrpc::{
    ChatClientConfig, ChatClientConfigLazy, ChatInitState, ChatInitStateGen, ChatInitStateLazy,
    ChatServerConfig, DecodeCursor, DecodeError, EncodeCursor, RegisterError, RegisterErrorLazy,
    RegisterRequest, RegisterRequestGen, RegisterRequestLazy, RegisterSuccess, RegisterSuccessGen,
    RegisteredUser, RegisteredUserGen, RegisteredUserLazy, SendMessageError,
    SendMessageErrorLazy, SendMessageRequest, SendMessageRequestGen, SendMessageRequestLazy,
    SendMessageSuccess,
};

fn user(endpoint: u64, alias: &str) -> RegisteredUser {
    RegisteredUser { endpoint, alias: alias.to_string() }
}

#[test]
fn register_request_bob_is_eleven_bytes() {
    let req = RegisterRequest { alias: "bob".to_string() };
    let bytes = req.to_bytes();
    assert_eq!(bytes.len(), 11);
    assert_eq!(bytes, vec![3, 0, 0, 0, 8, 0, 0, 0, b'b', b'o', b'b']);
    let back = RegisterRequest::from_bytes(&bytes).unwrap();
    assert_eq!(back, req);
    let mut c = DecodeCursor::new(&bytes);
    let lazy = RegisterRequestLazy::decode(&mut c).unwrap();
    assert_eq!(lazy.alias().unwrap(), "bob");
    assert_eq!(c.offset(), 8);
}

#[test]
fn register_error_variant_two_and_bad_discriminant() {
    assert_eq!(RegisterError::ChatFull.to_bytes(), vec![2]);
    assert_eq!(RegisterError::Internal.to_bytes(), vec![0]);
    assert_eq!(RegisterError::UserAlreadyExists.to_bytes(), vec![1]);
    assert_eq!(RegisterError::from_bytes(&[5, 0]), Err(DecodeError));
    let buf = [5u8, 0];
    let mut c = DecodeCursor::new(&buf);
    assert_eq!(RegisterErrorLazy::decode(&mut c), Err(DecodeError));
    assert_eq!(c.offset(), 0);
    assert_eq!(RegisterError::from_bytes(&[2, 0]), Ok(RegisterError::ChatFull));
}

#[test]
fn init_state_two_users_layout_and_random_access() {
    let state = ChatInitState { users: vec![user(1, "alice"), user(2, "bob")] };
    let mut bytes = state.to_bytes();
    // 8-byte list descriptor, two 16-byte element base regions, then 5 + 3 alias bytes.
    assert_eq!(bytes.len(), 8 + 2 * 16 + 5 + 3);
    assert_eq!(&bytes[0..8], &[2, 0, 0, 0, 8, 0, 0, 0]);
    // element 0: endpoint 1, alias of 5 bytes at 40
    assert_eq!(&bytes[8..24], &[1, 0, 0, 0, 0, 0, 0, 0, 5, 0, 0, 0, 40, 0, 0, 0]);
    // element 1: endpoint 2, alias of 3 bytes at 45
    assert_eq!(&bytes[24..40], &[2, 0, 0, 0, 0, 0, 0, 0, 3, 0, 0, 0, 45, 0, 0, 0]);
    assert_eq!(&bytes[40..48], b"alicebob");
    assert_eq!(ChatInitState::from_bytes(&bytes).unwrap(), state);

    // Element 0's alias made invalid: element 1 still reads, the whole state does not.
    bytes[40] = 0xff;
    let mut c = DecodeCursor::new(&bytes);
    let lazy = ChatInitStateLazy::decode(&mut c).unwrap();
    let users = lazy.users().unwrap();
    assert_eq!(users.len(), 2);
    let second = users.get(1).unwrap();
    assert_eq!(second.endpoint(), Ok(2));
    assert_eq!(second.alias(), Ok("bob"));
    let first = users.get(0).unwrap();
    assert_eq!(first.endpoint(), Ok(1));
    assert_eq!(first.alias(), Err(DecodeError));
    assert!(users.get(2).is_err());
    assert_eq!(ChatInitState::from_bytes(&bytes), Err(DecodeError));
}

#[test]
fn round_trip_every_type() {
    let u = user(0x0102030405060708, "zoë");
    assert_eq!(RegisteredUser::from_bytes(&u.to_bytes()).unwrap(), u);
    let r = RegisterRequest { alias: "".to_string() };
    assert_eq!(RegisterRequest::from_bytes(&r.to_bytes()).unwrap(), r);
    let m = SendMessageRequest { content: "hello, world".to_string() };
    assert_eq!(SendMessageRequest::from_bytes(&m.to_bytes()).unwrap(), m);
    let empty = ChatInitState { users: vec![] };
    assert_eq!(empty.to_bytes(), vec![0, 0, 0, 0, 8, 0, 0, 0]);
    assert_eq!(ChatInitState::from_bytes(&empty.to_bytes()).unwrap(), empty);
    let st = ChatInitState { users: vec![user(7, "x"), user(8, ""), user(9, "日本")] };
    assert_eq!(ChatInitState::from_bytes(&st.to_bytes()).unwrap(), st);
    for e in [SendMessageError::Internal, SendMessageError::NotRegistered, SendMessageError::MessageTooLong] {
        assert_eq!(SendMessageError::from_bytes(&e.to_bytes()), Ok(e));
    }
    for e in [RegisterError::Internal, RegisterError::UserAlreadyExists, RegisterError::ChatFull] {
        assert_eq!(RegisterError::from_bytes(&e.to_bytes()), Ok(e));
    }
    assert_eq!(RegisterSuccess {}.to_bytes().len(), 0);
    assert_eq!(RegisterSuccess::from_bytes(&[]), Ok(RegisterSuccess {}));
    assert_eq!(SendMessageSuccess::from_bytes(&[]), Ok(SendMessageSuccess {}));
    assert_eq!(ChatClientConfig::from_bytes(&[]), Ok(ChatClientConfig {}));
    assert_eq!(ChatServerConfig::from_bytes(&[]), Ok(ChatServerConfig {}));
}

#[test]
fn lazy_fields_match_owned() {
    let u = user(42, "carol");
    let bytes = u.to_bytes();
    let mut c = DecodeCursor::new(&bytes);
    let lazy = RegisteredUserLazy::decode(&mut c).unwrap();
    assert_eq!(c.offset(), 16);
    assert_eq!(lazy.endpoint(), Ok(42));
    assert_eq!(lazy.alias(), Ok("carol"));
    assert_eq!(RegisteredUser::lazy_to_owned(lazy).unwrap(), u);
    assert_eq!(lazy.scratch_len(), 5);

    let m = SendMessageRequest { content: "hi there".to_string() };
    let mb = m.to_bytes();
    let mut c = DecodeCursor::new(&mb);
    let ml = SendMessageRequestLazy::decode(&mut c).unwrap();
    assert_eq!(ml.content(), Ok("hi there"));
    assert_eq!(SendMessageRequest::lazy_to_owned(ml).unwrap(), m);

    let mut c = DecodeCursor::new(&[1u8]);
    assert_eq!(SendMessageErrorLazy::decode(&mut c), Ok(SendMessageErrorLazy::NotRegistered));
    assert_eq!(c.offset(), 1);
    assert_eq!(
        SendMessageError::lazy_to_owned(SendMessageErrorLazy::NotRegistered),
        Ok(SendMessageError::NotRegistered)
    );
}

#[test]
fn base_len_is_shared_by_every_representation() {
    assert_eq!(RegisteredUser::base_len(), 16);
    assert_eq!(RegisteredUserLazy::base_len(), 16);
    assert_eq!(RegisteredUserGen::<&str>::base_len(), 16);
    assert_eq!(RegisteredUserGen::<String>::base_len(), 16);
    assert_eq!(RegisterRequest::base_len(), 8);
    assert_eq!(RegisterRequestLazy::base_len(), 8);
    assert_eq!(RegisterRequestGen::<&str>::base_len(), 8);
    assert_eq!(SendMessageRequestGen::<String>::base_len(), 8);
    assert_eq!(ChatInitState::base_len(), 8);
    assert_eq!(ChatInitStateLazy::base_len(), 8);
    assert_eq!(ChatInitStateGen::<RegisteredUser>::base_len(), 8);
    assert_eq!(RegisterError::base_len(), 1);
    assert_eq!(RegisterErrorLazy::base_len(), 1);
    assert_eq!(RegisterSuccess::base_len(), 0);
    assert_eq!(RegisterSuccessGen::base_len(), 0);
    assert_eq!(ChatClientConfigLazy::base_len(), 0);
}

#[test]
fn encoded_length_is_base_plus_scratch() {
    let u = user(3, "dave");
    assert_eq!(u.to_bytes().len(), RegisteredUser::base_len() + u.scratch_len());
    assert_eq!(u.scratch_len(), 4);
    let st = ChatInitState { users: vec![user(1, "ab"), user(2, "cde")] };
    assert_eq!(st.scratch_len(), 2 * 16 + 5);
    assert_eq!(st.to_bytes().len(), ChatInitState::base_len() + st.scratch_len());
    let m = SendMessageRequest { content: "ü".to_string() };
    assert_eq!(m.scratch_len(), 2);
    assert_eq!(m.to_bytes().len(), SendMessageRequest::base_len() + m.scratch_len());
}

#[test]
fn every_variant_has_the_same_size() {
    for e in [SendMessageError::Internal, SendMessageError::NotRegistered, SendMessageError::MessageTooLong] {
        assert_eq!(e.to_bytes().len(), SendMessageError::base_len());
    }
    assert_eq!(SendMessageError::from_bytes(&[3]), Err(DecodeError));
    assert_eq!(SendMessageError::from_bytes(&[255]), Err(DecodeError));
    assert_eq!(SendMessageError::from_bytes(&[]), Err(DecodeError));
}

#[test]
fn generators_encode_like_owned_values() {
    let owned = user(5, "erin");
    let g = RegisteredUserGen { endpoint: 5, alias: "erin" };
    assert_eq!(g.to_bytes(), owned.to_bytes());
    assert_eq!(g.scratch_len(), owned.scratch_len());

    let r = RegisterRequestGen { alias: "anonymous-rustacean" };
    let ro = RegisterRequest { alias: "anonymous-rustacean".to_string() };
    assert_eq!(r.to_bytes(), ro.to_bytes());
    let s = SendMessageRequestGen { content: String::from("yo") };
    assert_eq!(s.to_bytes(), SendMessageRequest { content: "yo".to_string() }.to_bytes());

    let a = user(1, "a");
    let b = user(2, "bb");
    let st = ChatInitState { users: vec![a.clone(), b.clone()] };
    let borrowed: Vec<&RegisteredUser> = vec![&a, &b];
    let gen = ChatInitStateGen { users: &borrowed[..] };
    assert_eq!(gen.to_bytes(), st.to_bytes());
    assert_eq!(gen.scratch_len(), st.scratch_len());
    let gens = vec![
        RegisteredUserGen { endpoint: 1, alias: "a" },
        RegisteredUserGen { endpoint: 2, alias: "bb" },
    ];
    let gen2 = ChatInitStateGen { users: &gens[..] };
    assert_eq!(gen2.to_bytes(), st.to_bytes());
    assert_eq!(RegisterSuccessGen {}.to_bytes(), RegisterSuccess {}.to_bytes());
}

#[test]
fn short_buffers_give_decode_errors() {
    let bytes = user(1, "frank").to_bytes();
    for cut in 0..bytes.len() {
        assert_eq!(RegisteredUser::from_bytes(&bytes[..cut]), Err(DecodeError));
    }
    let mut c = DecodeCursor::new(&bytes[..15]);
    assert!(RegisteredUserLazy::decode(&mut c).is_err());
    assert_eq!(c.offset(), 0);
    assert_eq!(RegisterRequest::from_bytes(&[1, 0, 0, 0]), Err(DecodeError));
    // A list that claims more elements than the buffer holds.
    assert_eq!(ChatInitState::from_bytes(&[3, 0, 0, 0, 8, 0, 0, 0]), Err(DecodeError));
    // A text whose bytes lie past the end.
    assert_eq!(SendMessageRequest::from_bytes(&[1, 0, 0, 0, 200, 0, 0, 0, b'a']), Err(DecodeError));
}

#[test]
fn invalid_utf8_is_a_decode_error() {
    let bad = [2u8, 0, 0, 0, 8, 0, 0, 0, 0xc3, 0x28];
    assert_eq!(RegisterRequest::from_bytes(&bad), Err(DecodeError));
    let mut c = DecodeCursor::new(&bad);
    let lazy = RegisterRequestLazy::decode(&mut c).unwrap();
    assert_eq!(lazy.alias(), Err(DecodeError));
    let good = [2u8, 0, 0, 0, 8, 0, 0, 0, 0xc3, 0xa9];
    assert_eq!(RegisterRequest::from_bytes(&good).unwrap().alias, "é");
    let overlong = [2u8, 0, 0, 0, 8, 0, 0, 0, 0xc0, 0x80];
    assert_eq!(RegisterRequest::from_bytes(&overlong), Err(DecodeError));
}

#[test]
fn cursor_composes_records_in_field_order() {
    // A registered user followed by a registration error, in one buffer.
    let u = user(9, "gwen");
    let total = RegisteredUser::base_len() + RegisterError::base_len() + u.scratch_len();
    let mut c = EncodeCursor::new(total, RegisteredUser::base_len() + RegisterError::base_len());
    u.encode(&mut c);
    RegisterError::UserAlreadyExists.encode(&mut c);
    let bytes = c.into_bytes();
    assert_eq!(bytes.len(), 21);
    assert_eq!(&bytes[8..17], &[4, 0, 0, 0, 17, 0, 0, 0, 1]);
    assert_eq!(&bytes[17..], b"gwen");
    let mut d = DecodeCursor::new(&bytes);
    assert_eq!(RegisteredUser::decode(&mut d).unwrap(), u);
    assert_eq!(RegisterError::decode(&mut d), Ok(RegisterError::UserAlreadyExists));
    assert_eq!(d.offset(), 17);
}

#[test]
fn lazy_views_re_encode_like_owned() {
    let u = user(11, "hal");
    let bytes = u.to_bytes();
    let mut d = DecodeCursor::new(&bytes);
    let lazy = RegisteredUserLazy::decode(&mut d).unwrap();
    let mut c = EncodeCursor::new(16 + lazy.scratch_len(), 16);
    lazy.encode(&mut c);
    assert_eq!(c.into_bytes(), bytes);

    let st = ChatInitState { users: vec![user(1, "a"), user(2, "b")] };
    let sb = st.to_bytes();
    let mut d = DecodeCursor::new(&sb);
    let sl = ChatInitStateLazy::decode(&mut d).unwrap();
    let mut c = EncodeCursor::new(8 + sl.scratch_len(), 8);
    sl.encode(&mut c);
    assert_eq!(c.into_bytes(), sb);
    assert_eq!(ChatInitState::lazy_to_owned(sl).unwrap(), st);

    let mut c = EncodeCursor::new(1, 1);
    RegisterErrorLazy::ChatFull.encode(&mut c);
    assert_eq!(c.into_bytes(), vec![2]);
}

#[test]
fn lazy_views_compare_with_each_other_and_owned_values() {
    let a = user(1, "ivy");
    let ab = a.to_bytes();
    let bb = user(1, "ivy").to_bytes();
    let cb = user(2, "ivy").to_bytes();
    let la = RegisteredUserLazy::decode(&mut DecodeCursor::new(&ab)).unwrap();
    let lb = RegisteredUserLazy::decode(&mut DecodeCursor::new(&bb)).unwrap();
    let lc = RegisteredUserLazy::decode(&mut DecodeCursor::new(&cb)).unwrap();
    assert!(la == lb);
    assert!(la != lc);
    assert!(la.matches(&a));
    assert!(!lc.matches(&a));
    let mut broken = ab.clone();
    broken[16] = 0xff;
    let lx = RegisteredUserLazy::decode(&mut DecodeCursor::new(&broken)).unwrap();
    assert!(!(lx == lx));
    assert!(!lx.matches(&a));

    let r = RegisterRequest { alias: "jo".to_string() };
    let rb = r.to_bytes();
    let lr = RegisterRequestLazy::decode(&mut DecodeCursor::new(&rb)).unwrap();
    assert!(lr.matches(&r));
    assert!(!lr.matches(&RegisterRequest { alias: "jojo".to_string() }));
    assert!(lr == lr);
    let m = SendMessageRequest { content: "same".to_string() };
    let mb = m.to_bytes();
    let lm = SendMessageRequestLazy::decode(&mut DecodeCursor::new(&mb)).unwrap();
    assert!(lm.matches(&m));

    let st = ChatInitState { users: vec![user(1, "a"), user(2, "b")] };
    let sb = st.to_bytes();
    let other = ChatInitState { users: vec![user(1, "a"), user(2, "c")] }.to_bytes();
    let ls = ChatInitStateLazy::decode(&mut DecodeCursor::new(&sb)).unwrap();
    let lo = ChatInitStateLazy::decode(&mut DecodeCursor::new(&other)).unwrap();
    assert!(ls.matches(&st));
    assert!(!lo.matches(&st));
    assert!(ls != lo);
    assert!(ls == ChatInitStateLazy::decode(&mut DecodeCursor::new(&sb)).unwrap());

    let e: [u8; 0] = [];
    let l1 = ChatClientConfigLazy::decode(&mut DecodeCursor::new(&e)).unwrap();
    assert!(l1 == l1);
}
