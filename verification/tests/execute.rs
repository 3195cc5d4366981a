use mage_rs::execute::{
    address_in, entry_slot_offset, guest_record, host_record, RECORD_SLOTS, STACK_POINTER_SLOT,
    STACK_SIZE,
};
use mage_rs::{Interface, InterfaceType};

#[test]
fn stack_is_sixty_four_kibibytes() {
    assert_eq!(STACK_SIZE, 64 * 1024);
}

#[test]
fn entry_slot_is_one_word_below_the_end() {
    assert_eq!(entry_slot_offset(STACK_SIZE), Some(65528));
    assert_eq!(entry_slot_offset(8), Some(0));
    assert_eq!(entry_slot_offset(7), None);
    assert_eq!(entry_slot_offset(0), None);
}

#[test]
fn host_record_is_zero() {
    assert_eq!(host_record(), [0; 8]);
    assert_eq!(host_record().len(), RECORD_SLOTS);
}

#[test]
fn guest_record_holds_the_stack_pointer_in_its_last_slot() {
    assert_eq!(guest_record(0x7000_fff8), [0, 0, 0, 0, 0, 0, 0, 0x7000_fff8]);
    assert_eq!(guest_record(5)[STACK_POINTER_SLOT], 5);
}

#[test]
fn tags_are_zero_and_one() {
    assert_eq!(InterfaceType::Void.tag(), 0);
    assert_eq!(InterfaceType::Number.tag(), 1);
    assert_eq!(InterfaceType::from_tag(0), Some(InterfaceType::Void));
    assert_eq!(InterfaceType::from_tag(1), Some(InterfaceType::Number));
    assert_eq!(InterfaceType::from_tag(2), None);
}

#[test]
fn result_slot_is_read_from_two_words() {
    assert_eq!(
        Interface::from_words(1, 13),
        Some(Interface { interface_type: InterfaceType::Number, interface_data: 13 })
    );
    assert_eq!(
        Interface::from_words(0, 0),
        Some(Interface { interface_type: InterfaceType::Void, interface_data: 0 })
    );
    assert_eq!(Interface::from_words(7, 13), None);
    assert_eq!(Interface::void(), Interface { interface_type: InterfaceType::Void, interface_data: 0 });
}

#[test]
fn addresses_do_not_wrap() {
    assert_eq!(address_in(0x1000, 0x2f), Some(0x102f));
    assert_eq!(address_in(usize::MAX, 1), None);
}
