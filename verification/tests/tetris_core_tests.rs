use game::piece::{piece_board_offset, piece_grid};
use game::tetris_core::{
    default_depth_wall_defs, BottomwellRunMods, DepthWallDef, Piece, TetrisCore, BOARD_HEIGHT, BOARD_WIDTH,
    CELL_COIN, CELL_DIRT, CELL_EMPTY, CELL_GARBAGE, CELL_GRASS, CELL_ORE, CELL_STONE,
    DEFAULT_BOTTOMWELL_ROWS,
};

#[test]
fn o_piece_grid_is_invariant_under_rotation() {
    for rot in 0..4 {
        let g = piece_grid(Piece::O, rot);
        assert_eq!(g.size(), 2);
        for y in 0..g.size() {
            for x in 0..g.size() {
                assert_eq!(g.cell(x, y), 1);
            }
        }
    }
}

#[test]
fn i_piece_rotation_1_is_vertical_in_column_2() {
    let g = piece_grid(Piece::I, 1);
    assert_eq!(g.size(), 4);
    for y in 0..g.size() {
        for x in 0..g.size() {
            let expected = if x == 2 { 1 } else { 0 };
            assert_eq!(g.cell(x, y), expected, "unexpected cell at x={x} y={y}");
        }
    }
}

#[test]
fn piece_board_offset_matches_piece_sizes() {
    assert_eq!(piece_board_offset(Piece::O), 0);
    assert_eq!(piece_board_offset(Piece::S), 0);
    assert_eq!(piece_board_offset(Piece::MossSeed), 0);
    for p in [Piece::I, Piece::Glass, Piece::T, Piece::Z, Piece::J, Piece::L] {
        assert_eq!(piece_board_offset(p), 1);
    }
}

#[test]
fn moss_seed_piece_is_single_cell_invariant_under_rotation() {
    for rot in 0..4 {
        let g = piece_grid(Piece::MossSeed, rot);
        assert_eq!(g.size(), 1);
        assert_eq!(g.cell(0, 0), 1);
    }
}

fn make_bottomwell_core(seed: u64) -> TetrisCore {
    let mut core = TetrisCore::new(seed);
    core.set_available_pieces(Piece::all());
    core.set_bottomwell_enabled(true);
    core.initialize_game();
    core
}

fn default_bottomwell_height() -> usize {
    BOARD_HEIGHT + DEFAULT_BOTTOMWELL_ROWS
}

#[test]
fn default_first_depth_wall_triggers_at_5() {
    let defs = default_depth_wall_defs();
    assert_eq!(defs.first().map(|def| def.depth_trigger), Some(5));
}

#[test]
fn bottom_3_rows_exist_after_init() {
    let core = make_bottomwell_core(42);
    assert_eq!(core.board().len(), default_bottomwell_height());
    for y in 0..DEFAULT_BOTTOMWELL_ROWS {
        let non_empty = core.board()[y].iter().filter(|&&c| c != CELL_EMPTY).count();
        assert!(
            non_empty > 0,
            "bottomwell row y={y} should have non-empty cells, got all empty"
        );
    }
}

#[test]
fn bottom_rows_have_single_hole_for_playability() {
    let core = make_bottomwell_core(42);
    for y in 0..DEFAULT_BOTTOMWELL_ROWS {
        let holes = core.board()[y].iter().filter(|&&c| c == CELL_EMPTY).count();
        assert_eq!(holes, 1, "bottomwell row y={y} should have 1 hole, got {holes}");
    }
}

#[test]
fn top_bottomwell_row_is_grass_with_single_hole() {
    let core = make_bottomwell_core(42);
    let top = DEFAULT_BOTTOMWELL_ROWS - 1;
    let row = &core.board()[top];
    let holes = row.iter().filter(|&&c| c == CELL_EMPTY).count();
    assert_eq!(holes, 1, "top bottomwell row should keep exactly one hole");
    for &cell in row {
        assert!(
            cell == CELL_EMPTY || cell == CELL_GRASS,
            "top bottomwell row should contain only grass + one hole"
        );
    }
}

#[test]
fn earth_depth_equals_bottomwell_rows_after_init() {
    let core = make_bottomwell_core(42);
    assert_eq!(core.earth_depth(), DEFAULT_BOTTOMWELL_ROWS as u64);
}

#[test]
fn board_height_constant_after_init() {
    let core = make_bottomwell_core(42);
    assert_eq!(core.board().len(), default_bottomwell_height());
}

#[test]
fn generation_is_deterministic_by_seed_depth() {
    let row_a = TetrisCore::generate_earth_row(42, 0);
    let row_b = TetrisCore::generate_earth_row(42, 0);
    assert_eq!(row_a, row_b, "same seed+depth must produce identical rows");
    let row_c = TetrisCore::generate_earth_row(42, 1);
    assert_ne!(row_a, row_c, "different depths should (usually) produce different rows");
    let row_d = TetrisCore::generate_earth_row(99, 0);
    assert_ne!(row_a, row_d, "different seeds should (usually) produce different rows");
}

#[test]
fn clearing_1_line_reveals_1_earth_line() {
    let mut core = make_bottomwell_core(42);
    let depth_before = core.earth_depth();
    let target_y = 0;
    for x in 0..BOARD_WIDTH {
        core.set_cell(x, target_y, CELL_GARBAGE);
    }
    let cleared = core.clear_lines();
    assert_eq!(cleared, 1, "should clear exactly 1 line");
    assert_eq!(core.earth_depth(), depth_before + 1, "earth_depth should advance by 1");
    assert_eq!(core.board().len(), default_bottomwell_height(), "board height must stay constant");
}

#[test]
fn clearing_the_grass_row_removes_grass_property() {
    let mut core = make_bottomwell_core(42);
    let top = DEFAULT_BOTTOMWELL_ROWS - 1;
    for x in 0..BOARD_WIDTH {
        core.set_cell(x, top, CELL_GRASS);
    }
    let cleared = core.clear_lines();
    assert_eq!(cleared, 1, "expected the full grass row to clear");
    let grass_cells = core
        .board()
        .iter()
        .flat_map(|row| row.iter())
        .filter(|&&cell| cell == CELL_GRASS)
        .count();
    assert_eq!(grass_cells, 0, "cleared grass row should not be regenerated");
}

#[test]
fn clearing_non_bottomwell_line_does_not_reveal_earth_line() {
    let mut core = make_bottomwell_core(42);
    let depth_before = core.earth_depth();
    let target_y = DEFAULT_BOTTOMWELL_ROWS;
    for x in 0..BOARD_WIDTH {
        core.set_cell(x, target_y, 1);
    }
    let cleared = core.clear_lines();
    assert_eq!(cleared, 1, "should clear exactly 1 line");
    assert_eq!(
        core.earth_depth(),
        depth_before,
        "non-bottomwell clears should not reveal new earth rows"
    );
}

#[test]
fn clearing_n_lines_reveals_n_earth_lines() {
    let mut core = make_bottomwell_core(42);
    let depth_before = core.earth_depth();
    for n in 0..2 {
        let target_y = n;
        for x in 0..BOARD_WIDTH {
            core.set_cell(x, target_y, CELL_GARBAGE);
        }
    }
    let cleared = core.clear_lines();
    assert_eq!(cleared, 2, "should clear 2 lines");
    assert_eq!(core.earth_depth(), depth_before + 2, "earth_depth should advance by 2");
    assert_eq!(core.board().len(), default_bottomwell_height(), "board height must stay constant");
}

#[test]
fn board_height_always_stays_constant_after_clears() {
    let mut core = make_bottomwell_core(123);
    for round in 0..5 {
        let target_y = DEFAULT_BOTTOMWELL_ROWS;
        for x in 0..BOARD_WIDTH {
            core.set_cell(x, target_y, 1);
        }
        let cleared = core.clear_lines();
        assert!(cleared >= 1, "round {round}: should clear at least 1 line");
        assert_eq!(
            core.board().len(),
            default_bottomwell_height(),
            "round {round}: board height must remain {}",
            default_bottomwell_height()
        );
    }
}

#[test]
fn deep_shaft_rows_expand_effective_board_height() {
    let mut core = TetrisCore::new(42);
    core.set_available_pieces(Piece::all());
    core.set_bottomwell_enabled(true);
    core.set_bottomwell_run_mods(BottomwellRunMods {
        deep_shaft_rows: 2,
        ..BottomwellRunMods::default()
    });
    core.initialize_game();
    assert_eq!(
        core.board().len(),
        BOARD_HEIGHT + DEFAULT_BOTTOMWELL_ROWS + 2,
        "deep shaft rows should extend runtime board height"
    );
    assert_eq!(
        core.earth_depth(),
        (DEFAULT_BOTTOMWELL_ROWS + 2) as u64,
        "deep shaft visibility should also prefill matching bottomwell rows"
    );
}

#[test]
fn bottomwell_disabled_does_not_prefill() {
    let mut core = TetrisCore::new(42);
    core.set_available_pieces(Piece::all());
    core.initialize_game();
    for y in 0..BOARD_HEIGHT {
        let non_empty = core.board()[y].iter().filter(|&&c| c != CELL_EMPTY).count();
        assert_eq!(non_empty, 0, "row y={y} should be empty when bottomwell is disabled");
    }
    assert_eq!(core.earth_depth(), 0);
}

#[test]
fn ore_and_coin_rewards_tracked_on_clear() {
    let mut core = make_bottomwell_core(42);
    let target_y = DEFAULT_BOTTOMWELL_ROWS;
    for x in 0..BOARD_WIDTH {
        core.set_cell(x, target_y, 1);
    }
    core.set_cell(0, target_y, CELL_ORE);
    core.set_cell(1, target_y, CELL_COIN);
    let ore_before = core.ore_collected();
    let coins_before = core.coins_collected();
    let cleared = core.clear_lines();
    assert_eq!(cleared, 1);
    assert_eq!(core.ore_collected(), ore_before + 1);
    assert_eq!(core.coins_collected(), coins_before + 1);
}

#[test]
fn refinery_bonus_increases_score_and_meta_money() {
    let mut core = make_bottomwell_core(42);
    core.set_bottomwell_run_mods(BottomwellRunMods {
        ore_score_bonus: 25,
        coin_score_bonus: 60,
        ore_money_bonus: 1,
        coin_money_bonus: 3,
        ..BottomwellRunMods::default()
    });
    let target_y = DEFAULT_BOTTOMWELL_ROWS;
    for x in 0..BOARD_WIDTH {
        core.set_cell(x, target_y, 1);
    }
    core.set_cell(0, target_y, CELL_ORE);
    core.set_cell(1, target_y, CELL_COIN);
    let score_before = core.score();
    assert_eq!(core.clear_lines(), 1);
    let score_gain = core.score().saturating_sub(score_before);
    assert_eq!(score_gain, 100 + 75 + 260);
    assert_eq!(core.refinery_money_from_collected_resources(), 4);
}

#[test]
fn weighting_mods_increase_ore_and_coin_generation() {
    let mut base_ore = 0u32;
    let mut base_coin = 0u32;
    let mut mod_ore = 0u32;
    let mut mod_coin = 0u32;
    for depth in 20..120 {
        let base = TetrisCore::generate_earth_row_with_tuning(42, depth, 0, 0, 0, 0);
        let tuned = TetrisCore::generate_earth_row_with_tuning(42, depth, 6, 3, 0, 0);
        for cell in base {
            if cell == CELL_ORE {
                base_ore += 1;
            } else if cell == CELL_COIN {
                base_coin += 1;
            }
        }
        for cell in tuned {
            if cell == CELL_ORE {
                mod_ore += 1;
            } else if cell == CELL_COIN {
                mod_coin += 1;
            }
        }
    }
    assert!(mod_ore > base_ore, "ore weighting should increase ore frequency");
    assert!(mod_coin > base_coin, "coin weighting should increase coin frequency");
}

#[test]
fn generate_earth_row_has_correct_width() {
    let row = TetrisCore::generate_earth_row(42, 0);
    assert_eq!(row.len(), BOARD_WIDTH);
}

#[test]
fn generate_earth_row_contains_only_valid_cell_types() {
    for depth in 0..50 {
        let row = TetrisCore::generate_earth_row(42, depth);
        for &cell in &row {
            assert!(
                cell == CELL_EMPTY
                    || cell == CELL_DIRT
                    || cell == CELL_GARBAGE
                    || cell == CELL_STONE
                    || cell == CELL_ORE
                    || cell == CELL_COIN,
                "unexpected cell type {cell} at depth {depth}"
            );
        }
    }
}

#[test]
fn generate_earth_row_does_not_emit_grass_cells() {
    for depth in 0..50 {
        let row = TetrisCore::generate_earth_row(42, depth);
        assert!(
            row.iter().all(|&cell| cell != CELL_GRASS),
            "earth generation should not include grass at depth {depth}"
        );
    }
}

fn fill_clearable_row(core: &mut TetrisCore) {
    let target_y = 0;
    for x in 0..BOARD_WIDTH {
        core.set_cell(x, target_y, CELL_GARBAGE);
    }
}

fn fill_clearable_non_bottomwell_row(core: &mut TetrisCore) {
    let target_y = DEFAULT_BOTTOMWELL_ROWS;
    for x in 0..BOARD_WIDTH {
        core.set_cell(x, target_y, 1);
    }
}

fn make_wall_test_core(progress_file: &str, hp: u32) -> TetrisCore {
    let mut core = TetrisCore::new(7);
    core.set_available_pieces(Piece::all());
    core.set_bottomwell_enabled(true);
    core.set_depth_wall_progress_path(std::path::PathBuf::from(progress_file));
    core.set_depth_wall_defs(vec![DepthWallDef {
        id: "test_wall".to_string(),
        depth_trigger: (DEFAULT_BOTTOMWELL_ROWS as u64).saturating_add(1),
        hp,
        biome_from: "dirt".to_string(),
        biome_to: "stone".to_string(),
    }]);
    core.set_depth_wall_damage_tuning(4, 100);
    core.initialize_game();
    core
}

#[test]
fn wall_activates_at_trigger_depth_and_pauses_reveal() {
    let mut core = make_wall_test_core("depth_wall_activation.json", 8);
    let depth_before = core.earth_depth();

    fill_clearable_row(&mut core);
    assert_eq!(core.clear_lines(), 1);
    assert_eq!(core.active_wall_id(), Some("test_wall"));
    assert_eq!(core.active_wall_hp_remaining(), 8);
    assert!(core.depth_progress_paused());
    assert_eq!(
        core.earth_depth(),
        depth_before,
        "depth should stop advancing as soon as the wall activates"
    );
}

#[test]
fn active_wall_damage_breaks_and_unpauses_depth_progression() {
    let mut core = make_wall_test_core("depth_wall_damage_break.json", 8);

    // Activate wall using a bottomwell clear.
    fill_clearable_row(&mut core);
    assert_eq!(core.clear_lines(), 1);
    let depth_at_activation = core.earth_depth();

    // While paused, non-bottomwell clears still damage the wall.
    fill_clearable_non_bottomwell_row(&mut core);
    assert_eq!(core.clear_lines(), 1);
    assert_eq!(core.active_wall_hp_remaining(), 4);
    assert!(core.depth_progress_paused());
    assert_eq!(
        core.earth_depth(),
        depth_at_activation,
        "depth remains frozen while a wall is active"
    );

    fill_clearable_non_bottomwell_row(&mut core);
    assert_eq!(core.clear_lines(), 1);
    assert_eq!(core.active_wall_id(), None);
    assert_eq!(core.active_wall_hp_remaining(), 0);
    assert!(!core.depth_progress_paused());

    // Depth only resumes when we clear another bottomwell row.
    fill_clearable_row(&mut core);
    assert_eq!(core.clear_lines(), 1);
    assert!(
        core.earth_depth() >= depth_at_activation + 1,
        "depth progression should resume on the clear after the break"
    );
}

#[test]
fn depth_wall_progress_path_reads_back_what_was_set() {
    let mut core = TetrisCore::new(3);
    core.set_depth_wall_progress_path(std::path::PathBuf::from("walls/progress.json"));
    assert_eq!(core.depth_wall_progress_path(), &std::path::PathBuf::from("walls/progress.json"));
}

#[test]
fn ghost_position_is_where_a_hard_drop_lands_even_through_dirt() {
    let mut c = TetrisCore::new(0);
    c.set_current_piece_for_test(Piece::I, game::piece::Vec2i::new(4, 10), 1);
    c.set_cell(5, 0, CELL_DIRT);
    assert_eq!(c.ghost_piece_pos(), Some(game::piece::Vec2i::new(4, 2)));
    assert_eq!(c.current_piece_pos(), game::piece::Vec2i::new(4, 10));
}
