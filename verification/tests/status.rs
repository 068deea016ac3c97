use cpu6502::status::{Flag, Status, RESERVED};

const ALL: [Flag; 7] = [Flag::N, Flag::V, Flag::B, Flag::D, Flag::I, Flag::Z, Flag::C];

#[test]
fn flag_positions() {
    assert_eq!(Flag::N.bit(), 7);
    assert_eq!(Flag::V.bit(), 6);
    assert_eq!(Flag::B.bit(), 4);
    assert_eq!(Flag::D.bit(), 3);
    assert_eq!(Flag::I.bit(), 2);
    assert_eq!(Flag::Z.bit(), 1);
    assert_eq!(Flag::C.bit(), 0);
}

#[test]
fn new_status_is_clear() {
    let status = Status::new();
    assert_eq!(status.register(), 0x00);
    for flag in ALL {
        assert!(!status.read(flag));
    }
}

#[test]
fn set_bit_sets_exactly_one_bit() {
    let expected = [0x80u8, 0x40, 0x10, 0x08, 0x04, 0x02, 0x01];
    for (flag, raw) in ALL.into_iter().zip(expected) {
        let mut status = Status::new();
        status.set_bit(flag);
        assert_eq!(status.register(), raw);
        for other in ALL {
            assert_eq!(status.read(other), other == flag);
        }
        status.set_bit(flag);
        assert_eq!(status.register(), raw);
    }
}

#[test]
fn unset_bit_clears_exactly_one_bit() {
    let expected = [0x5fu8, 0x9f, 0xcf, 0xd7, 0xdb, 0xdd, 0xde];
    for (flag, raw) in ALL.into_iter().zip(expected) {
        let mut status = Status::new();
        for other in ALL {
            status.set_bit(other);
        }
        assert_eq!(status.register(), 0xdf);
        status.unset_bit(flag);
        assert_eq!(status.register(), raw);
        for other in ALL {
            assert_eq!(status.read(other), other != flag);
        }
        status.unset_bit(flag);
        assert_eq!(status.register(), raw);
    }
}

#[test]
fn toggle_bit_flips_exactly_one_bit() {
    let mut status = Status::new();
    status.set_bit(Flag::I);
    status.toggle_bit(Flag::N);
    assert_eq!(status.register(), 0x84);
    status.toggle_bit(Flag::I);
    assert_eq!(status.register(), 0x80);
    status.toggle_bit(Flag::N);
    assert_eq!(status.register(), 0x00);
    status.toggle_bit(Flag::C);
    status.toggle_bit(Flag::B);
    assert_eq!(status.register(), 0x11);
}

#[test]
fn toggle_twice_gives_the_register_back() {
    for flag in ALL {
        let mut status = Status::new();
        status.set_bit(Flag::V);
        status.set_bit(Flag::Z);
        status.toggle_bit(flag);
        status.toggle_bit(flag);
        assert_eq!(status.register(), 0x42);
    }
}

#[test]
fn readers_give_one_or_zero() {
    let mut status = Status::new();
    assert_eq!(
        (status.n(), status.v(), status.b(), status.d(), status.i(), status.z(), status.c()),
        (0, 0, 0, 0, 0, 0, 0)
    );
    status.set_bit(Flag::N);
    assert_eq!(status.n(), 1);
    status.set_bit(Flag::V);
    assert_eq!(status.v(), 1);
    status.set_bit(Flag::B);
    assert_eq!(status.b(), 1);
    status.set_bit(Flag::D);
    assert_eq!(status.d(), 1);
    status.set_bit(Flag::I);
    assert_eq!(status.i(), 1);
    status.set_bit(Flag::Z);
    assert_eq!(status.z(), 1);
    status.set_bit(Flag::C);
    assert_eq!(status.c(), 1);
    assert_eq!(
        (status.n(), status.v(), status.b(), status.d(), status.i(), status.z(), status.c()),
        (1, 1, 1, 1, 1, 1, 1)
    );
    status.unset_bit(Flag::D);
    assert_eq!(
        (status.n(), status.v(), status.b(), status.d(), status.i(), status.z(), status.c()),
        (1, 1, 1, 0, 1, 1, 1)
    );
}

#[test]
fn each_reader_reads_its_own_flag() {
    let readers: [fn(&Status) -> u8; 7] =
        [Status::n, Status::v, Status::b, Status::d, Status::i, Status::z, Status::c];
    for (at, flag) in ALL.into_iter().enumerate() {
        let mut status = Status::new();
        status.set_bit(flag);
        for (reader_at, reader) in readers.iter().enumerate() {
            assert_eq!(reader(&status), if reader_at == at { 1 } else { 0 });
        }
    }
}

#[test]
fn reserved_bit_stays_clear() {
    assert_eq!(RESERVED, 0x20);
    let mut status = Status::new();
    for flag in ALL {
        status.toggle_bit(flag);
        assert_eq!(status.register() & RESERVED, 0);
    }
    assert_eq!(status.register(), 0xdf);
    for flag in ALL {
        status.set_bit(flag);
        status.unset_bit(flag);
        assert_eq!(status.register() & RESERVED, 0);
    }
    assert_eq!(status.register(), 0x00);
}

#[test]
fn clone_keeps_the_register() {
    let mut status = Status::new();
    status.set_bit(Flag::D);
    status.set_bit(Flag::C);
    let mut copy = status.clone();
    assert_eq!(copy.register(), 0x09);
    copy.unset_bit(Flag::D);
    assert_eq!(copy.register(), 0x01);
    assert_eq!(status.register(), 0x09);
}
