use collector::stm32f4::generic::{mask_of, Reg, Resettable, R, W};
use collector::stm32f4::{cmpcr, dhr12l2, doepint0, dtxfsts1, fmc, kr, maca3lr, prer, wutr};

#[test]
fn masks() {
    assert_eq!(mask_of(1), 1);
    assert_eq!(mask_of(7), 0x7f);
    assert_eq!(mask_of(16), 0xffff);
    assert_eq!(mask_of(32), 0xffff_ffff);
}

#[test]
fn reset_values() {
    assert_eq!(kr::KR_SPEC::reset_value(), 0);
    assert_eq!(maca3lr::MACA3LR_SPEC::reset_value(), 0xffff_ffff);
    assert_eq!(cmpcr::CMPCR_SPEC::reset_value(), 0);
    assert_eq!(doepint0::DOEPINT0_SPEC::reset_value(), 0x80);
    assert_eq!(dtxfsts1::DTXFSTS1_SPEC::reset_value(), 0);
    assert_eq!(wutr::WUTR_SPEC::reset_value(), 0xffff);
    assert_eq!(dhr12l2::DHR12L2_SPEC::reset_value(), 0);
    assert_eq!(prer::PRER_SPEC::reset_value(), 0x007f_00ff);
}

#[test]
fn watchdog_keys() {
    let mut w = kr::W(W::reset());
    w.key().enable();
    assert_eq!(w.0.bits, 0x5555);
    w.key().reset();
    assert_eq!(w.0.bits, 0xaaaa);
    w.key().start();
    assert_eq!(w.0.bits, 0xcccc);
    assert_eq!(u16::from(kr::KEY_AW::Start), 52428);
    w.bits(0xffff_0000);
    w.key().enable();
    assert_eq!(w.0.bits, 0xffff_5555);
}

#[test]
fn mac_address_register() {
    let mut w = maca3lr::W(W::reset());
    assert_eq!(w.0.bits, 0xffff_ffff);
    w.mbca3l().bits(0x1234_5678);
    let r = maca3lr::R(R::new(w.0.bits));
    assert_eq!(r.mbca3l().bits(), 0x1234_5678);
    assert_eq!(r.bits(), 0x1234_5678);
}

#[test]
fn compensation_cell_bits() {
    let r = cmpcr::R(R::new(0x101));
    assert!(r.ready().bit_is_set());
    assert!(r.cmp_pd().bit());
    let r = cmpcr::R(R::new(0x100));
    assert!(r.cmp_pd().bit_is_clear());
    assert!(r.ready().bit());
}

#[test]
fn endpoint_interrupt_bits() {
    let mut w = doepint0::W(W::reset());
    w.xfrc().set_bit();
    w.stup().set_bit();
    w.b2bstup().bit(true);
    assert_eq!(w.0.bits, 0x80 | 0x1 | 0x8 | 0x40);
    w.b2bstup().clear_bit();
    let r = doepint0::R(R::new(w.0.bits));
    assert!(r.xfrc().bit());
    assert!(r.stup().bit());
    assert!(!r.b2bstup().bit());
    assert!(!r.epdisd().bit());
    assert!(!r.otepdis().bit());
    w.otepdis().set_bit();
    w.epdisd().set_bit();
    assert_eq!(w.0.bits, 0x80 | 0x1 | 0x8 | 0x10 | 0x2);
}

#[test]
fn fifo_space() {
    let r = dtxfsts1::R(R::new(0xabcd_1234));
    assert_eq!(r.ineptfsav().bits(), 0x1234);
}

#[test]
fn wakeup_timer() {
    let mut w = wutr::W(W::reset());
    w.wut().bits(0x0102);
    let r = wutr::R(R::new(w.0.bits));
    assert_eq!(r.wut().bits(), 0x0102);
    assert_eq!(w.0.bits, 0x0102);
}

#[test]
fn dac_left_aligned_data() {
    let mut w = dhr12l2::W(W::reset());
    w.dacc2dhr().bits(0xfff);
    assert_eq!(w.0.bits, 0xfff0);
    w.dacc2dhr().bits(0x1abc);
    assert_eq!(w.0.bits, 0xabc0);
    let r = dhr12l2::R(R::new(0xffff_ffff));
    assert_eq!(r.dacc2dhr().bits(), 0xfff);
}

#[test]
fn prescalers() {
    let mut w = prer::W(W::reset());
    w.prediv_a().bits(0x12);
    assert_eq!(w.0.bits, 0x0012_00ff);
    w.prediv_s().bits(0x7fff);
    assert_eq!(w.0.bits, 0x0012_7fff);
    w.prediv_s().bits(0x8001);
    assert_eq!(w.0.bits, 0x0012_0001);
    let r = prer::R(R::new(w.0.bits));
    assert_eq!(r.prediv_a().bits(), 0x12);
    assert_eq!(r.prediv_s().bits(), 0x0001);
}

#[test]
fn register_holds_what_was_written() {
    let mut reg: Reg<prer::PRER_SPEC> = Reg::new(prer::PRER_SPEC::reset_value());
    let mut w = W::new(reg.read().bits());
    w.bits(0x0001_0002);
    reg.write(w);
    let r = prer::R(reg.read());
    assert_eq!(r.prediv_a().bits(), 1);
    assert_eq!(r.prediv_s().bits(), 2);
}

#[test]
fn memory_controller_accessors() {
    let block = fmc::RegisterBlock {
        bcr1: Reg::new(1),
        btr1: Reg::new(2),
        bcr2: Reg::new(3),
        btr2: Reg::new(4),
        bcr3: Reg::new(5),
        btr3: Reg::new(6),
        bcr4: Reg::new(7),
        btr4: Reg::new(8),
        _reserved8: [0; 96],
        pcr: Reg::new(9),
        sr: Reg::new(10),
        pmem: Reg::new(11),
        patt: Reg::new(12),
        _reserved12: [0; 4],
        eccr: Reg::new(13),
        _reserved13: [0; 108],
        bwtr1: Reg::new(14),
        _reserved14: [0; 4],
        bwtr2: Reg::new(15),
        _reserved15: [0; 4],
        bwtr3: Reg::new(16),
        _reserved16: [0; 4],
        bwtr4: Reg::new(17),
        _reserved17: [0; 32],
        sdcr: [Reg::new(18), Reg::new(19)],
        sdtr: [Reg::new(20), Reg::new(21)],
        sdcmr: Reg::new(22),
        sdrtr: Reg::new(23),
        sdsr: Reg::new(24),
    };
    assert_eq!(block.sdcr1().read().bits(), 18);
    assert_eq!(block.sdcr2().read().bits(), 19);
    assert_eq!(block.sdtr1().read().bits(), 20);
    assert_eq!(block.sdtr2().read().bits(), 21);
}
