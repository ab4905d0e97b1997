use adpcm::decoder::{decode, DecoderState};
use adpcm::pcm::pcm_to_le_bytes;
use adpcm::tables::{INDEX_ADJUST_TABLE, STEP_SIZE_TABLE};
use adpcm::unpack::{unpack, _nibblegen};
use adpcm::wave::Wave;

#[test]
fn table_spot_checks() {
    assert_eq!(STEP_SIZE_TABLE[0], 7);
    assert_eq!(STEP_SIZE_TABLE[88], 32767);
    assert_eq!(STEP_SIZE_TABLE.len(), 89);
    assert_eq!(INDEX_ADJUST_TABLE[0], -1);
    assert_eq!(INDEX_ADJUST_TABLE[7], 8);
    assert_eq!(INDEX_ADJUST_TABLE[15], 8);
}

#[test]
fn nibblegen_splits_high_then_low() {
    assert_eq!(_nibblegen(&0xab), [0x0a, 0x0b]);
    assert_eq!(_nibblegen(&0x00), [0x00, 0x00]);
    assert_eq!(_nibblegen(&0xff), [0x0f, 0x0f]);
    assert_eq!(_nibblegen(&0x70), [0x07, 0x00]);
}

#[test]
fn unpack_preserves_order_and_doubles_length() {
    let codes = unpack(&[0x12, 0x34, 0xf0]);
    assert_eq!(codes, vec![0x1, 0x2, 0x3, 0x4, 0xf, 0x0]);
}

#[test]
fn unpack_empty_is_empty() {
    let codes = unpack(&[]);
    assert_eq!(codes.len(), 0);
}

#[test]
fn decode_empty_is_empty() {
    let out = decode(&[]);
    assert_eq!(out.len(), 0);
}

#[test]
fn decode_is_deterministic() {
    let codes = unpack(&[0x70, 0x12, 0x9f, 0x84, 0x3c, 0x00, 0xff, 0x55]);
    let first = decode(&codes);
    let second = decode(&codes);
    assert_eq!(first, second);
}

#[test]
fn known_vector_first_sample_is_11() {
    let codes = unpack(&[0x70, 0x00]);
    assert_eq!(codes, vec![0x7, 0x0, 0x0, 0x0]);
    let out = decode(&codes);
    assert_eq!(out, vec![11, 13, 14, 15]);
}

#[test]
fn known_vector_through_wave_stops_one_short() {
    let wave = Wave::from_audio(vec![0x70, 0x00], 0);
    assert_eq!(wave.nibbles, vec![0x7, 0x0, 0x0, 0x0]);
    let out = wave.decode();
    assert_eq!(out, vec![11, 13, 14]);
}

#[test]
fn full_decode_yields_two_samples_per_byte() {
    let bytes = [0x70, 0x00, 0xab, 0xcd, 0x11];
    let codes = unpack(&bytes);
    assert_eq!(codes.len(), 2 * bytes.len());
    let out = decode(&codes);
    assert_eq!(out.len(), 2 * bytes.len());
}

#[test]
fn wave_decode_yields_one_sample_less() {
    let bytes = vec![0x70, 0x00, 0xab, 0xcd, 0x11];
    let n = bytes.len();
    let wave = Wave::from_audio(bytes, 0);
    assert_eq!(wave.nibbles.len(), 2 * n);
    let out = wave.decode();
    assert_eq!(out.len(), 2 * n - 1);
}

#[test]
fn max_positive_codes_saturate_at_ceiling() {
    let codes = vec![0x7u8; 32];
    let out = decode(&codes);
    assert_eq!(out.len(), 32);
    // the output climbs, never passes 32767, and sticks there from
    // position 12 on
    for w in out.windows(2) {
        assert!(w[0] <= w[1]);
    }
    for (i, s) in out.iter().enumerate() {
        assert!(*s <= 32767);
        if i >= 12 {
            assert_eq!(*s, 32767);
        }
    }
}

#[test]
fn max_negative_codes_saturate_at_floor() {
    let codes = vec![0xfu8; 32];
    let out = decode(&codes);
    assert_eq!(out.len(), 32);
    for w in out.windows(2) {
        assert!(w[0] >= w[1]);
    }
    for (i, s) in out.iter().enumerate() {
        assert!(*s >= -32768);
        if i >= 12 {
            assert_eq!(*s, -32768);
        }
    }
}

#[test]
fn saturated_output_comes_from_packed_bytes_too() {
    // 0x77 packs two maximal positive codes
    let codes = unpack(&[0x77u8; 16]);
    let out = decode(&codes);
    assert_eq!(*out.last().unwrap(), 32767);
}

#[test]
fn step_index_caps_at_88() {
    let mut state = DecoderState::new();
    // code 4 adjusts the index up by 2 each step
    for _ in 0..100 {
        state.step(0x4);
    }
    assert_eq!(state.step_index, 88);
    assert_eq!(state.step_size, 32767);
    // further upward-adjusting codes keep it capped
    state.step(0xc);
    assert_eq!(state.step_index, 88);
    assert_eq!(state.step_size, 32767);
}

#[test]
fn step_index_floors_at_0() {
    let mut state = DecoderState::new();
    for _ in 0..20 {
        state.step(0x7);
    }
    assert!(state.step_index > 0);
    // codes 0-3 and 8-11 adjust the index down by 1 each step
    for _ in 0..100 {
        state.step(0x0);
    }
    assert_eq!(state.step_index, 0);
    assert_eq!(state.step_size, 7);
    state.step(0x8);
    assert_eq!(state.step_index, 0);
    assert_eq!(state.step_size, 7);
}

#[test]
fn fresh_decoder_has_standard_initial_state() {
    let state = DecoderState::new();
    assert_eq!(state.predicted_sample, 0);
    assert_eq!(state.step_index, 0);
    assert_eq!(state.step_size, 7);
}

#[test]
fn pcm_serializes_little_endian() {
    let out = pcm_to_le_bytes(&vec![258, -2, 11]);
    assert_eq!(out, vec![0x02, 0x01, 0xfe, 0xff, 0x0b, 0x00]);
}

#[test]
fn pcm_of_no_samples_is_empty() {
    let out = pcm_to_le_bytes(&vec![]);
    assert_eq!(out.len(), 0);
}

#[test]
fn wave_cursor_seek_current_mv() {
    let mut wave = Wave::from_audio(vec![1, 2, 3, 4, 5, 6], 6);
    assert_eq!(wave.current(), 0);
    let head = wave.seek(4);
    assert_eq!(head, vec![1, 2, 3, 4]);
    assert_eq!(wave.current(), 4);
    let rest = wave.seek(2);
    assert_eq!(rest, vec![5, 6]);
    assert_eq!(wave.current(), 6);
    wave.mv(1);
    assert_eq!(wave.current(), 1);
    let mid = wave.seek(3);
    assert_eq!(mid, vec![2, 3, 4]);
}

#[test]
fn wave_decode_of_empty_payload_is_empty() {
    // header-only input: no payload, no codes, no samples, no error
    let wave = Wave::from_audio(vec![0xde, 0xad], 2);
    assert_eq!(wave.nibbles.len(), 0);
    let out = wave.decode();
    assert_eq!(out.len(), 0);

    let empty = Wave::from_audio(vec![], 0);
    assert_eq!(empty.decode().len(), 0);
}

#[test]
fn wave_decode_of_single_byte_payload_drops_pad_nibble() {
    // one byte unpacks to two codes; the trailing one is skipped
    let wave = Wave::from_audio(vec![0x70], 0);
    assert_eq!(wave.nibbles, vec![0x7, 0x0]);
    assert_eq!(wave.decode(), vec![11]);
}

#[test]
fn wave_payload_start_skips_header_bytes() {
    // two header bytes, then a one-byte payload
    let wave = Wave::from_audio(vec![0xde, 0xad, 0x70], 2);
    assert_eq!(wave.nibbles, vec![0x7, 0x0]);
    assert_eq!(wave.audio.len(), 3);
}
