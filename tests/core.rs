use imagequant::error::LiqError;
use imagequant::order::{most_transparent_pos, rank_order, sort_palette, transparent_count, PaletteKey};
use imagequant::palette::{
    make_int_palette, posterize_channel, posterize_color, with_fixed_colors, Rgba8, CANARY_B, CANARY_G, CANARY_R,
};
use imagequant::remap::{
    background_use, choose_dithered_output, dithered_pass_index, error_shares, feeds_kmeans, needs_contrast_maps,
    nearest_pass_index, output_buffer, zero_filled, output_len, plan_remap, progress_stage1, scan_columns, scan_forward,
    DitherChoice, DitherMapMode, ErrorShare,
};
use imagequant::search::{next_refine_iteration, quantization_outcome, refine_stops, use_histogram_as_palette, SearchState};

fn key(transparent: bool, popularity: i64, alpha: i64) -> PaletteKey {
    PaletteKey { transparent, popularity, alpha }
}

#[test]
fn posterize_zero_bits_keeps_channel() {
    for c in 0..=255u8 {
        assert_eq!(posterize_channel(c, 0), c);
    }
}

#[test]
fn posterize_refills_low_bits_from_high_bits() {
    assert_eq!(posterize_channel(200, 2), 203);
    assert_eq!(posterize_channel(181, 4), 187);
    assert_eq!(posterize_channel(255, 7), 255);
    assert_eq!(posterize_channel(0, 7), 0);
    assert_eq!(posterize_channel(127, 1), 126);
}

#[test]
fn posterize_color_rounds_each_channel() {
    let c = posterize_color(Rgba8 { r: 200, g: 181, b: 1, a: 255 }, 2);
    assert_eq!(c, Rgba8 { r: 203, g: 182, b: 0, a: 255 });
}

#[test]
fn int_palette_marks_transparent_entries_with_canary() {
    let colors = vec![
        Rgba8 { r: 10, g: 20, b: 30, a: 0 },
        Rgba8 { r: 10, g: 20, b: 30, a: 0 },
        Rgba8 { r: 200, g: 100, b: 50, a: 255 },
    ];
    let fixed = vec![false, true, false];
    let pal = make_int_palette(&colors, &fixed, 0);
    assert_eq!(pal.len(), 3);
    assert_eq!(pal[0], Rgba8 { r: CANARY_R, g: CANARY_G, b: CANARY_B, a: 0 });
    assert_eq!(pal[0], Rgba8 { r: 71, g: 112, b: 76, a: 0 });
    assert_eq!(pal[1], Rgba8 { r: 10, g: 20, b: 30, a: 0 });
    assert_eq!(pal[2], Rgba8 { r: 200, g: 100, b: 50, a: 255 });
}

#[test]
fn int_palette_posterizes_before_the_transparency_test() {
    let colors = vec![Rgba8 { r: 200, g: 181, b: 3, a: 2 }];
    let pal = make_int_palette(&colors, &vec![false], 2);
    assert_eq!(pal[0], Rgba8 { r: CANARY_R, g: CANARY_G, b: CANARY_B, a: 0 });
    let pal = make_int_palette(&colors, &vec![false], 1);
    assert_eq!(pal[0], Rgba8 { r: 201, g: 181, b: 2, a: 2 });
}

#[test]
fn int_palette_of_nothing_is_empty() {
    assert!(make_int_palette(&vec![], &vec![], 3).is_empty());
}

#[test]
fn rank_order_puts_transparent_first_then_popular() {
    let keys = vec![key(false, 5, 255), key(true, 1, 0), key(false, 9, 255), key(true, 3, 10)];
    assert_eq!(rank_order(&keys, false), vec![3, 1, 2, 0]);
    assert_eq!(rank_order(&keys, true), vec![2, 0, 3, 1]);
}

#[test]
fn rank_order_is_stable_on_equal_keys() {
    let keys = vec![key(false, 4, 255), key(false, 4, 255), key(false, 7, 255), key(false, 4, 255)];
    assert_eq!(rank_order(&keys, false), vec![2, 0, 1, 3]);
}

#[test]
fn sort_palette_transparent_last() {
    // opaque entries and transparent ones mixed; the most transparent is not the least popular
    let keys = vec![
        key(true, 50, 0),
        key(false, 20, 255),
        key(true, 10, 5),
        key(false, 90, 255),
        key(true, 1, 3),
    ];
    let order = sort_palette(&keys, true);
    assert_eq!(order, vec![3, 1, 4, 2, 0]);
    let last = keys[order[order.len() - 1]];
    assert!(last.transparent);
    for &i in &order {
        if keys[i].transparent {
            assert!(keys[i].alpha >= last.alpha);
        }
    }
}

#[test]
fn sort_palette_transparent_first_has_no_swap() {
    let keys = vec![key(false, 20, 255), key(true, 10, 5), key(true, 30, 0)];
    assert_eq!(sort_palette(&keys, false), vec![2, 1, 0]);
}

#[test]
fn sort_palette_without_transparent_entries() {
    let keys = vec![key(false, 1, 255), key(false, 3, 255), key(false, 2, 255)];
    assert_eq!(sort_palette(&keys, true), vec![1, 2, 0]);
    assert!(sort_palette(&vec![], true).is_empty());
}

#[test]
fn most_transparent_takes_the_first_minimum() {
    let keys = vec![key(true, 0, 4), key(false, 0, 0), key(true, 0, 2), key(true, 0, 2)];
    assert_eq!(most_transparent_pos(&keys, &vec![0, 1, 2, 3]), Some(2));
    assert_eq!(most_transparent_pos(&keys, &vec![3, 2, 1, 0]), Some(0));
    assert_eq!(most_transparent_pos(&keys, &vec![1]), None);
}

#[test]
fn histogram_used_directly_only_when_it_fits_and_is_exact() {
    assert!(use_histogram_as_palette(3, 1, 4, true));
    assert!(!use_histogram_as_palette(4, 1, 4, true));
    assert!(!use_histogram_as_palette(3, 1, 4, false));
    assert!(!use_histogram_as_palette(usize::MAX, usize::MAX, 256, true));
}

#[test]
fn search_accepts_first_palette() {
    let s = SearchState::start(256, 10);
    assert_eq!(s, SearchState { max_colors: 256, trials_left: 10, fails_in_a_row: 0, has_best: false, stop_requested: false });
    assert!(s.measures_trial());
    assert!(!s.kmeans_fast_mode(true));
    assert!(s.kmeans_fast_mode(false));
    assert!(s.accepts(false, false, 256));
    assert_eq!(s.mediancut_budget(6), 250);
    assert_eq!(s.mediancut_budget(300), 0);
}

#[test]
fn search_accept_caps_budget() {
    let mut s = SearchState::start(256, 10);
    s.record_trial(true, 40);
    assert_eq!(s, SearchState { max_colors: 41, trials_left: 9, fails_in_a_row: 0, has_best: true, stop_requested: false });
    assert!(s.kmeans_fast_mode(true));
    assert!(!s.accepts(false, false, 10));
    assert!(s.accepts(true, false, 41));
    assert!(s.accepts(false, true, 40));
    assert!(!s.accepts(false, true, 41));
}

#[test]
fn search_rejections_cost_more_each_time() {
    let mut s = SearchState::start(16, 20);
    s.record_trial(true, 15);
    assert_eq!(s.max_colors, 16);
    s.record_trial(false, 15);
    assert_eq!(s, SearchState { max_colors: 16, trials_left: 13, fails_in_a_row: 1, has_best: true, stop_requested: false });
    s.record_trial(false, 15);
    assert_eq!(s.trials_left, 6);
    assert_eq!(s.fails_in_a_row, 2);
    assert!(s.keeps_searching(false));
    assert!(!s.stop_requested);
    s.record_trial(false, 15);
    assert_eq!(s.trials_left, -2);
    assert!(!s.keeps_searching(false));
    assert!(!s.measures_trial());
}

#[test]
fn search_without_trials_takes_mediancut_as_is() {
    let mut s = SearchState::start(256, 0);
    assert!(!s.measures_trial());
    assert!(!s.keeps_searching(false));
}

#[test]
fn refine_steps() {
    assert_eq!(next_refine_iteration(3, false), 4);
    assert_eq!(next_refine_iteration(3, true), 5);
    assert!(refine_stops(true, false, 1, 10));
    assert!(refine_stops(false, true, 1, 10));
    assert!(refine_stops(false, false, 10, 10));
    assert!(!refine_stops(false, false, 9, 10));
}

#[test]
fn quantization_aborts_when_observer_breaks_on_second_call() {
    // the observer continues on entry and breaks at its second call, after the first trial
    let mut s = SearchState::start(256, 10);
    s.record_trial(true, 30);
    assert!(!s.keeps_searching(true));
    assert!(s.stop_requested);
    assert_eq!(quantization_outcome(false, s.stop_requested, true, false, false), Err(LiqError::Aborted));
    // without trials, the second call comes after the search
    assert_eq!(quantization_outcome(false, false, true, true, false), Err(LiqError::Aborted));
    assert_eq!(quantization_outcome(true, false, true, false, false), Err(LiqError::Aborted));
}

#[test]
fn search_stop_is_kept() {
    let mut s = SearchState::start(256, 10);
    assert!(!s.keeps_searching(true));
    assert!(!s.keeps_searching(false));
    assert!(s.stop_requested);
    assert_eq!(s.trials_left, 10);
}

#[test]
fn quantization_outcome_errors() {
    assert_eq!(quantization_outcome(false, false, false, true, true), Err(LiqError::ValueOutOfRange));
    assert_eq!(quantization_outcome(false, true, false, false, false), Err(LiqError::Aborted));
    assert_eq!(quantization_outcome(false, false, true, false, true), Err(LiqError::QualityTooLow));
    assert_eq!(quantization_outcome(false, false, true, false, false), Ok(()));
}

#[test]
fn dither_map_modes() {
    assert_eq!(progress_stage1(DitherMapMode::Off), 0);
    assert_eq!(progress_stage1(DitherMapMode::Enabled), 20);
    assert_eq!(progress_stage1(DitherMapMode::Always), 20);
    assert!(needs_contrast_maps(DitherMapMode::Enabled, false, false));
    assert!(!needs_contrast_maps(DitherMapMode::Off, false, false));
    assert!(!needs_contrast_maps(DitherMapMode::Always, true, false));
    assert!(!needs_contrast_maps(DitherMapMode::Always, false, true));
}

#[test]
fn remap_plans() {
    let p = plan_remap(true, DitherMapMode::Always, 10, 10, true, false);
    assert!(p.nearest_only && !p.pre_remap);
    let p = plan_remap(false, DitherMapMode::Enabled, 10, 10, true, false);
    assert!(!p.nearest_only && p.pre_remap);
    // huge image: more than four million pixels
    assert!(!plan_remap(false, DitherMapMode::Enabled, 2001, 2000, true, false).pre_remap);
    assert!(plan_remap(false, DitherMapMode::Enabled, 2000, 2000, true, false).pre_remap);
    assert!(plan_remap(false, DitherMapMode::Always, 2001, 2000, true, false).pre_remap);
    assert!(!plan_remap(false, DitherMapMode::Off, 10, 10, true, false).pre_remap);
    assert!(!plan_remap(false, DitherMapMode::Always, 10, 10, false, false).pre_remap);
    assert!(!plan_remap(false, DitherMapMode::Always, 10, 10, true, true).pre_remap);
    assert!(plan_remap(false, DitherMapMode::Always, usize::MAX, 2, true, false).pre_remap);
}

#[test]
fn output_len_checks_buffer() {
    assert_eq!(output_len(4, 3, 12), Ok(12));
    assert_eq!(output_len(4, 3, 100), Ok(12));
    assert_eq!(output_len(4, 3, 11), Err(LiqError::BufferTooSmall));
    assert_eq!(output_len(usize::MAX, 2, usize::MAX), Err(LiqError::BufferTooSmall));
    assert_eq!(output_len(0, 5, 0), Ok(0));
}

#[test]
fn output_buffer_is_zeroed_and_sized() {
    let b = output_buffer(4, 3).unwrap();
    assert_eq!(b.len(), 12);
    assert!(b.iter().all(|&x| x == 0));
    assert_eq!(output_buffer(0, 7).unwrap().len(), 0);
}

#[test]
fn output_buffer_reports_out_of_memory() {
    assert_eq!(output_buffer(usize::MAX, 2), Err(LiqError::OutOfMemory));
    assert_eq!(output_buffer(usize::MAX / 2, 1), Err(LiqError::OutOfMemory));
}

#[test]
fn opaque_candidate_disables_background() {
    let bg = background_use(true, 3, true);
    assert_eq!(bg.transparent_index, Some(3));
    assert!(!bg.reuse);
    for found in 0..8u8 {
        assert_eq!(nearest_pass_index(found, true, bg), found);
        assert_eq!(nearest_pass_index(found, false, bg), found);
    }
    // reuse is off: every pixel feeds k-means, on the candidate index too
    assert!(feeds_kmeans(true, bg));
    assert!(feeds_kmeans(false, bg));
    assert_eq!(choose_dithered_output(bg.reuse, true, 1, true, true), (DitherChoice::Dithered, 1));
}

#[test]
fn transparent_candidate_enables_background() {
    let bg = background_use(true, 3, false);
    assert!(bg.reuse);
    assert_eq!(nearest_pass_index(1, true, bg), 3);
    assert_eq!(nearest_pass_index(1, false, bg), 1);
    let none = background_use(false, 3, false);
    assert_eq!(none.transparent_index, None);
    assert!(!none.reuse);
    assert_eq!(nearest_pass_index(1, true, none), 1);
    assert!(feeds_kmeans(true, none));
    assert!(!feeds_kmeans(true, bg));
    assert!(feeds_kmeans(false, bg));
}

#[test]
fn dithered_background_choices() {
    assert_eq!(choose_dithered_output(true, true, 2, true, true), (DitherChoice::Background, 2));
    assert_eq!(choose_dithered_output(true, false, 2, true, true), (DitherChoice::Dithered, 0));
    assert_eq!(choose_dithered_output(true, false, 1, true, true), (DitherChoice::Undithered, 2));
    assert_eq!(choose_dithered_output(true, false, 0, true, false), (DitherChoice::Dithered, 0));
    assert_eq!(choose_dithered_output(true, false, 1, false, true), (DitherChoice::Dithered, 1));
    assert_eq!(choose_dithered_output(false, true, 0, true, true), (DitherChoice::Dithered, 0));
    assert_eq!(choose_dithered_output(true, false, u32::MAX, true, true), (DitherChoice::Dithered, 0));
    assert_eq!(dithered_pass_index(DitherChoice::Background, 4, 5, 9), 9);
    assert_eq!(dithered_pass_index(DitherChoice::Dithered, 4, 5, 9), 4);
    assert_eq!(dithered_pass_index(DitherChoice::Undithered, 4, 5, 9), 5);
}

#[test]
fn serpentine_scan() {
    assert!(scan_forward(0));
    assert!(!scan_forward(1));
    assert_eq!(scan_columns(4, 0), vec![0, 1, 2, 3]);
    assert_eq!(scan_columns(4, 1), vec![3, 2, 1, 0]);
    assert_eq!(scan_columns(4, 2), vec![0, 1, 2, 3]);
    assert!(scan_columns(0, 1).is_empty());
}

#[test]
fn floyd_steinberg_shares() {
    let f = error_shares(5, true);
    assert_eq!(f[0], ErrorShare { next_row: false, index: 7, sixteenths: 7, replaces: false });
    assert_eq!(f[1], ErrorShare { next_row: true, index: 7, sixteenths: 1, replaces: true });
    assert_eq!(f[2], ErrorShare { next_row: true, index: 6, sixteenths: 5, replaces: false });
    assert_eq!(f[3], ErrorShare { next_row: true, index: 5, sixteenths: 3, replaces: false });
    let b = error_shares(5, false);
    assert_eq!(b[0], ErrorShare { next_row: false, index: 5, sixteenths: 7, replaces: false });
    assert_eq!(b[1], ErrorShare { next_row: true, index: 7, sixteenths: 3, replaces: false });
    assert_eq!(b[3], ErrorShare { next_row: true, index: 5, sixteenths: 1, replaces: true });
    assert_eq!(b.iter().map(|s| s.sixteenths).sum::<u32>(), 16);
}

#[test]
fn fixed_colors_follow_chosen_ones() {
    let blue = Rgba8 { r: 0, g: 0, b: 255, a: 255 };
    let magenta = Rgba8 { r: 255, g: 0, b: 255, a: 255 };
    let pal = with_fixed_colors(&vec![blue], &vec![magenta], 2);
    assert_eq!(pal, vec![blue, magenta]);
}

#[test]
fn fixed_colors_win_when_budget_is_short() {
    let chosen = vec![1u32, 2, 3, 4];
    let fixed = vec![10u32, 11];
    assert_eq!(with_fixed_colors(&chosen, &fixed, 4), vec![1, 2, 10, 11]);
    assert_eq!(with_fixed_colors(&chosen, &fixed, 1), vec![10]);
    assert_eq!(with_fixed_colors(&chosen, &fixed, 0), Vec::<u32>::new());
    assert_eq!(with_fixed_colors(&chosen, &fixed, 256), vec![1, 2, 3, 4, 10, 11]);
    assert_eq!(with_fixed_colors(&chosen, &vec![], 3), vec![1, 2, 3]);
}

#[test]
fn palette_within_budget_holds_every_fixed_color() {
    let chosen: Vec<u32> = (0..300).collect();
    let fixed = vec![1000u32, 1001, 1002];
    for max in 3..=256usize {
        let pal = with_fixed_colors(&chosen, &fixed, max);
        assert!(pal.len() <= max);
        for f in &fixed {
            assert!(pal.contains(f));
        }
    }
}

#[test]
fn zero_fill_keeps_prefix() {
    assert_eq!(zero_filled(vec![7, 8], 5), vec![7, 8, 0, 0, 0]);
    assert_eq!(zero_filled(vec![], 0), Vec::<u8>::new());
}

#[test]
fn transparent_last_is_least_opaque_of_all() {
    // keys from one threshold: transparent entries have alpha at most 10
    let keys = vec![key(false, 9, 200), key(true, 8, 10), key(false, 1, 11), key(true, 2, 4)];
    let order = sort_palette(&keys, true);
    let last = keys[order[order.len() - 1]];
    for &i in &order {
        assert!(keys[i].alpha >= last.alpha);
    }
    assert_eq!(last.alpha, 4);
}

#[test]
fn transparent_count_reaches_last_transparent_slot() {
    let keys = vec![key(false, 9, 200), key(true, 8, 0), key(false, 1, 255), key(true, 2, 4)];
    let order = sort_palette(&keys, false);
    assert_eq!(order, vec![1, 3, 0, 2]);
    assert_eq!(transparent_count(&keys, &order), Some(2));
    assert_eq!(transparent_count(&keys, &vec![1, 0, 3, 2]), Some(3));
    assert_eq!(transparent_count(&keys, &vec![0, 2]), None);
    assert_eq!(transparent_count(&keys, &vec![]), None);
}
