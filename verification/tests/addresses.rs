use account_overlay::address::{
    bytes_equal, Address, Space, TYPE_BITS_BUILTIN, TYPE_BITS_CONTRACT, TYPE_BITS_USER_ACCOUNT,
};

fn address(first: u8, last: u8) -> Address {
    let mut bytes = [0u8; 20];
    bytes[0] = first;
    bytes[19] = last;
    Address(bytes)
}

#[test]
fn type_bits_are_the_upper_four_bits() {
    assert_eq!(address(0x10, 0).address_type_bits(), TYPE_BITS_USER_ACCOUNT);
    assert_eq!(address(0x1f, 0).address_type_bits(), TYPE_BITS_USER_ACCOUNT);
    assert_eq!(address(0x85, 0).address_type_bits(), TYPE_BITS_CONTRACT);
    assert_eq!(address(0x0f, 0).address_type_bits(), TYPE_BITS_BUILTIN);
    assert_eq!(address(0xff, 0).address_type_bits(), 0xf0);
}

#[test]
fn setting_type_bits_keeps_the_other_bits() {
    let mut a = address(0xab, 0x77);
    a.set_user_account_type_bits();
    assert_eq!(a, address(0x1b, 0x77));
    assert!(a.is_user_account_address());
    a.set_contract_type_bits();
    assert_eq!(a, address(0x8b, 0x77));
    assert!(a.is_contract_address());
    a.set_address_type_bits(TYPE_BITS_BUILTIN);
    assert_eq!(a, address(0x0b, 0x77));
    assert!(a.is_builtin_address());
}

#[test]
fn genesis_valid_addresses() {
    assert!(address(0x10, 1).is_genesis_valid_address());
    assert!(address(0x80, 1).is_genesis_valid_address());
    assert!(address(0x00, 1).is_genesis_valid_address());
    assert!(Address::zero().is_genesis_valid_address());
    assert!(!address(0x20, 1).is_genesis_valid_address());
    assert!(!address(0x90, 1).is_genesis_valid_address());
    assert!(!address(0xf0, 0).is_genesis_valid_address());
}

#[test]
fn null_address_is_not_a_builtin() {
    assert!(Address::zero().is_null_address());
    assert!(!Address::zero().is_builtin_address());
    assert!(!address(0, 1).is_null_address());
    assert!(address(0, 1).is_builtin_address());
    assert!(!address(0x10, 0).is_builtin_address());
}

#[test]
fn address_equality_is_by_bytes() {
    assert_eq!(address(1, 2), address(1, 2));
    assert_ne!(address(1, 2), address(1, 3));
    assert_ne!(address(1, 2), address(2, 2));
    assert!(bytes_equal(&[1u8, 2, 3], &[1u8, 2, 3]));
    assert!(!bytes_equal(&[1u8, 2, 3], &[1u8, 2, 4]));
    assert!(bytes_equal::<0>(&[], &[]));
}

#[test]
fn address_with_space() {
    let a = address(0x10, 1);
    assert_eq!(a.with_native_space().space, Space::Native);
    assert_eq!(a.with_evm_space().space, Space::Ethereum);
    assert_eq!(a.with_native_space().address, a);
    assert!(a.with_native_space().same(&a.with_native_space()));
    assert!(!a.with_native_space().same(&a.with_evm_space()));
    assert!(!a.with_native_space().same(&address(0x10, 2).with_native_space()));
}
