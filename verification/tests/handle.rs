use capability_router::handle::{
    into_handle_based, koid_of, name_from_property, name_to_property, AsHandleRef, Event,
    Handle, HandleBased, HandleBasicInfo, HandleRef, Koid, Status, Unowned,
};
use capability_router::sys::{
    zx_info_handle_basic_t, zx_packet_type_t, zx_port_packet_t, ZX_ERR_INTERNAL,
    ZX_ERR_INVALID_ARGS, ZX_HANDLE_INVALID, ZX_MAX_NAME_LEN,
};

/// Sets a name and reads it back, as an object of the kernel would keep it.
fn set_then_get(name_with_nul: &[u8]) -> Result<Vec<u8>, Status> {
    let property = name_to_property(name_with_nul)?;
    name_from_property(&property)
}

#[test]
fn set_get_name() {
    let short_name = b"v\0";
    assert!(name_to_property(short_name).is_ok());
    assert_eq!(set_then_get(short_name), Ok(b"v".to_vec()));
}

#[test]
fn set_get_max_len_name() {
    let max_len_name = b"a_great_maximum_length_vmo_name\0"; // 32 bytes
    assert_eq!(max_len_name.len(), ZX_MAX_NAME_LEN);
    assert!(name_to_property(max_len_name).is_ok());
    assert_eq!(set_then_get(max_len_name), Ok(b"a_great_maximum_length_vmo_name".to_vec()));
}

#[test]
fn set_get_too_long_name() {
    let too_long_name = b"bad_really_too_too_long_vmo_name\0"; // 33 bytes
    assert_eq!(name_to_property(too_long_name), Err(Status(ZX_ERR_INVALID_ARGS)));
}

#[test]
fn a_name_is_padded_with_zero_bytes() {
    let mut expected = [0u8; 32];
    expected[0] = b'a';
    expected[1] = b'b';
    assert_eq!(name_to_property(b"ab\0"), Ok(expected));
    assert_eq!(name_to_property(b""), Ok([0u8; 32]));
}

#[test]
fn a_property_without_zero_byte_has_no_name() {
    assert_eq!(name_from_property(&[b'x'; 32]), Err(Status(ZX_ERR_INTERNAL)));
    let mut property = [b'x'; 32];
    property[31] = 0;
    assert_eq!(name_from_property(&property), Ok(vec![b'x'; 31]));
    property[0] = 0;
    assert_eq!(name_from_property(&property), Ok(vec![]));
}

#[test]
fn the_invalid_handle_is_zero() {
    assert_eq!(ZX_HANDLE_INVALID, 0);
    assert!(Handle::invalid().is_invalid());
    assert_eq!(Handle::invalid().raw_handle(), 0);
    assert!(!Handle::from_raw(7).is_invalid());
    assert_eq!(Handle::from_raw(7).into_raw(), 7);
    assert_eq!(Handle::from_raw(0), Handle::invalid());
}

#[test]
fn a_borrowed_handle_names_the_same_object() {
    let h = Handle::from_raw(42);
    let r: HandleRef = h.as_handle_ref();
    assert_eq!(r.raw_handle(), 42);
    assert_eq!(r.as_handle_ref().raw_handle(), 42);
    let u: Unowned<Event> = Unowned::from_raw_handle(9);
    assert_eq!(u.raw_handle(), 9);
    assert_eq!(AsHandleRef::raw_handle(&u), 9);
}

#[test]
fn handle_based_objects_convert_through_their_handle() {
    let e = Event::from_handle(Handle::from_raw(5));
    assert_eq!(e.raw_handle(), 5);
    assert!(!e.is_invalid_handle());
    assert!(Event::from_handle(Handle::invalid()).is_invalid_handle());
    let h: Handle = into_handle_based(e);
    assert_eq!(h.raw_handle(), 5);
    let e: Event = into_handle_based(h);
    assert_eq!(e.into_raw(), 5);
    assert_eq!(Event::from_handle(Handle::from_raw(3)).into_handle(), Handle::from_raw(3));
}

#[test]
fn the_koid_comes_out_of_the_basic_info() {
    let info = HandleBasicInfo(zx_info_handle_basic_t {
        koid: 1234,
        rights: 3,
        type_: 2,
        related_koid: 99,
        props: 0,
    });
    assert_eq!(info.koid(), Koid(1234));
    assert_eq!(info.info().related_koid, 99);
    assert_eq!(koid_of(Ok(info)), Ok(Koid::from_raw(1234)));
    assert_eq!(koid_of(Err(Status(-12))), Err(Status(-12)));
    assert_eq!(Koid(8).raw_koid(), 8);
    assert_eq!(HandleBasicInfo::default().koid(), Koid(0));
}

#[test]
fn packets_start_out_as_user_packets() {
    assert_eq!(zx_packet_type_t::default(), zx_packet_type_t::ZX_PKT_TYPE_USER);
    let p = zx_port_packet_t::default();
    assert_eq!(p.key, 0);
    assert_eq!(p.packet_type, zx_packet_type_t::ZX_PKT_TYPE_USER);
    assert_eq!(p.status, 0);
    assert_eq!(p.union, [0u8; 32]);
}
