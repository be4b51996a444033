use pcm_player::config::{default_track, select_track, trim_bytes};
use pcm_player::pipeline::{arm_sequence, disarm_sequence, dma_transfer_count, timer_reload, PipelineOp};
use pcm_player::regs::{bit_is_set, bsrr_apply, field_get, field_mask, field_set};
use pcm_player::spi::{read_step, send_step, spi_baud_bits, status_from_raw, ReadStep, SendStep, SpiError, SpiStatus};

#[test]
fn absent_config_falls_back() {
    // No configuration file: the fixed default name, not an error.
    assert_eq!(select_track(None), b"TRACK.RAW".to_vec());
    assert_eq!(default_track(), b"TRACK.RAW".to_vec());
}

#[test]
fn present_config_is_trimmed() {
    let cfg = b" \tmusic.raw\r\n".to_vec();
    assert_eq!(select_track(Some(cfg)), b"music.raw".to_vec());
}

#[test]
fn trim_handles_edges() {
    assert_eq!(trim_bytes(&b"name".to_vec()), b"name".to_vec());
    assert_eq!(trim_bytes(&b"  \r\n\t ".to_vec()), Vec::<u8>::new());
    assert_eq!(trim_bytes(&Vec::new()), Vec::<u8>::new());
    assert_eq!(trim_bytes(&b"a b".to_vec()), b"a b".to_vec());
}

#[test]
fn field_ops() {
    assert_eq!(field_mask(4, 3), 0x70);
    let r = field_set(0xffff_ffff, 4, 3, 0b010);
    assert_eq!(r, 0xffff_ffaf);
    assert_eq!(field_get(r, 4, 3), 0b010);
    // the neighbouring bits are untouched
    assert!(bit_is_set(r, 3));
    assert!(bit_is_set(r, 7));
    // a full-width field replaces the word
    assert_eq!(field_set(0x1234_5678, 0, 32, 0xdead_beef), 0xdead_beef);
    assert_eq!(field_get(0x1234_5678, 0, 32), 0x1234_5678);
}

#[test]
fn bsrr_set_reset_semantics() {
    // bit 0 set, bit 1 reset
    let bsrr = (1u32 << 17) | 1;
    assert_eq!(bsrr_apply(0b1010, bsrr), 0b1001);
    // a set request wins over a reset request for the same bit
    let both = (1u32 << 16) | 1;
    assert_eq!(bsrr_apply(0, both), 1);
    // no request leaves the word alone
    assert_eq!(bsrr_apply(0xabcd, 0), 0xabcd);
}

#[test]
fn spi_status_decoding() {
    let st = status_from_raw((1 << 6) | (1 << 0));
    assert!(st.ovr && st.rxne);
    assert!(!st.txe && !st.crcerr && !st.modf);
}

fn quiet() -> SpiStatus {
    SpiStatus { rxne: false, txe: false, crcerr: false, modf: false, ovr: false }
}

#[test]
fn spi_read_decisions() {
    // error priority: overrun, then mode fault, then CRC
    let all = SpiStatus { rxne: true, txe: true, crcerr: true, modf: true, ovr: true };
    assert_eq!(read_step(&all, 7), ReadStep::Fault(SpiError::Overrun));
    let st = SpiStatus { ovr: false, ..all };
    assert_eq!(read_step(&st, 7), ReadStep::Fault(SpiError::ModeFault));
    let st = SpiStatus { modf: false, ..st };
    assert_eq!(read_step(&st, 7), ReadStep::Fault(SpiError::CrcError));
    let st = SpiStatus { rxne: true, ..quiet() };
    assert_eq!(read_step(&st, 7), ReadStep::Data(7));
    assert_eq!(read_step(&quiet(), 7), ReadStep::Pending);
}

#[test]
fn spi_send_decisions() {
    let st = SpiStatus { txe: true, ..quiet() };
    assert_eq!(send_step(&st), SendStep::Ready);
    assert_eq!(send_step(&quiet()), SendStep::Pending);
    let st = SpiStatus { ovr: true, txe: true, ..quiet() };
    assert_eq!(send_step(&st), SendStep::Fault(SpiError::Overrun));
}

#[test]
fn spi_two_speed_policy() {
    assert_eq!(spi_baud_bits(false), 0b101);
    assert_eq!(spi_baud_bits(true), 0);
}

#[test]
fn pipeline_sequencing() {
    assert_eq!(
        arm_sequence(),
        vec![PipelineOp::ZeroDac, PipelineOp::EnableDma, PipelineOp::StartTimer]
    );
    assert_eq!(disarm_sequence(), vec![PipelineOp::StopTimer, PipelineOp::DisableDma]);
}

#[test]
fn pipeline_configuration_values() {
    assert_eq!(timer_reload(16_000_000, 22_222), 720);
    assert_eq!(timer_reload(16_000_000, 22_050), 725);
    assert_eq!(dma_transfer_count(pcm_player::BUFSIZE), 2048);
}
