use game::background::tiles::{tile_layer_tiles, tile_motif_rects, TileDraw, TileLayerSettings};
use game::headful::skilltree_camera::Rect;
use game::background::{
    biome_at_depth, biome_for_world_depth_at_near_col, palette_for_biome, depth_to_background_row_offset, layer_far,
    layer_mid, layer_near, surface_boundary_depth_for_near_col, tile_hash, v1_layers,
    world_depth_for_tile_row, BackgroundBiome, BackgroundLayerId, BackgroundTileKind,
    STONE_DEPTH_START, SURFACE_DEPTH_START,
};

#[test]
fn tile_hash_deterministic() {
    let a = tile_hash(42, 10, 3, 0);
    let b = tile_hash(42, 10, 3, 0);
    assert_eq!(a, b, "same inputs must produce same hash");
}

#[test]
fn tile_hash_varies_with_seed() {
    let a = tile_hash(1, 10, 3, 0);
    let b = tile_hash(2, 10, 3, 0);
    assert_ne!(a, b, "different seeds should produce different hashes");
}

#[test]
fn tile_hash_varies_with_depth() {
    let a = tile_hash(42, 0, 3, 0);
    let b = tile_hash(42, 1, 3, 0);
    assert_ne!(a, b, "different depths should produce different hashes");
}

#[test]
fn tile_hash_varies_with_col() {
    let a = tile_hash(42, 10, 0, 0);
    let b = tile_hash(42, 10, 1, 0);
    assert_ne!(a, b, "different columns should produce different hashes");
}

#[test]
fn tile_hash_varies_with_layer() {
    let a = tile_hash(42, 10, 3, 0);
    let b = tile_hash(42, 10, 3, 1);
    assert_ne!(a, b, "different layers should produce different hashes");
}

#[test]
fn tile_hash_varies_across_all_three_layers() {
    let far = tile_hash(42, 10, 3, BackgroundLayerId::Far.index());
    let mid = tile_hash(42, 10, 3, BackgroundLayerId::Mid.index());
    let near = tile_hash(42, 10, 3, BackgroundLayerId::Near.index());
    assert_ne!(far, mid, "Far and Mid layers should hash differently");
    assert_ne!(mid, near, "Mid and Near layers should hash differently");
    assert_ne!(far, near, "Far and Near layers should hash differently");
}

#[test]
fn biome_overworld_below_surface_threshold() {
    for d in 0..SURFACE_DEPTH_START {
        assert_eq!(biome_at_depth(d), BackgroundBiome::Overworld);
    }
}

#[test]
fn biome_dirt_between_surface_and_stone_thresholds() {
    for d in SURFACE_DEPTH_START..STONE_DEPTH_START {
        assert_eq!(biome_at_depth(d), BackgroundBiome::Dirt);
    }
}

#[test]
fn biome_stone_at_and_above_stone_threshold() {
    assert_eq!(biome_at_depth(STONE_DEPTH_START), BackgroundBiome::Stone);
    assert_eq!(biome_at_depth(STONE_DEPTH_START + 100), BackgroundBiome::Stone);
    assert_eq!(biome_at_depth(u32::MAX), BackgroundBiome::Stone);
}

#[test]
fn surface_boundary_is_deterministic_for_same_seed_and_column() {
    let a = surface_boundary_depth_for_near_col(1234, 7);
    let b = surface_boundary_depth_for_near_col(1234, 7);
    assert_eq!(a, b);
}

#[test]
fn surface_boundary_stays_flat_when_row_raise_is_disabled() {
    let mut seen = std::collections::BTreeSet::new();
    for col in 0..32 {
        seen.insert(surface_boundary_depth_for_near_col(1234, col));
    }
    assert!(
        seen.len() == 1,
        "surface boundary row should stay fixed when row-raise jitter is disabled"
    );
}

#[test]
fn start_view_has_bottom_three_rows_in_dirt_for_all_columns() {
    let seed = 42u64;
    let bottom_three = [SURFACE_DEPTH_START, SURFACE_DEPTH_START + 1, SURFACE_DEPTH_START + 2];
    for col in 0..48 {
        for &depth in &bottom_three {
            assert_eq!(
                biome_for_world_depth_at_near_col(depth, col, seed, false),
                BackgroundBiome::Dirt,
                "expected start bottom rows to be Dirt at col={col}, depth={depth}"
            );
        }
    }
}

#[test]
fn separator_moves_up_one_row_per_depth_step_in_near_layer() {
    let seed = 77u64;
    let col = 5u32;
    let boundary = surface_boundary_depth_for_near_col(seed, col);
    assert!(boundary >= 1, "boundary must support a one-step upward move");
    let row_at_depth0 = boundary;
    let row_at_depth1 = boundary - 1;
    assert_eq!(row_at_depth1 + 1, row_at_depth0);
    assert_eq!(
        biome_for_world_depth_at_near_col(row_at_depth0, col, seed, false),
        BackgroundBiome::Dirt
    );
    assert_eq!(
        biome_for_world_depth_at_near_col(row_at_depth0 - 1, col, seed, false),
        BackgroundBiome::Overworld
    );
    let world_depth_new_separator = 1 + row_at_depth1;
    assert_eq!(
        world_depth_new_separator, boundary,
        "new separator row should map to the same boundary depth"
    );
}

#[test]
fn legacy_underground_start_skips_overworld() {
    assert_eq!(biome_for_world_depth_at_near_col(0, 0, 1, true), BackgroundBiome::Dirt);
}

#[test]
fn depth_to_background_row_offset_is_identity_in_mvp() {
    assert_eq!(depth_to_background_row_offset(0), 0);
    assert_eq!(depth_to_background_row_offset(1), 1);
    assert_eq!(depth_to_background_row_offset(17), 17);
    assert_eq!(depth_to_background_row_offset(1_000), 1_000);
    assert_eq!(depth_to_background_row_offset(u32::MAX), u32::MAX);
}

#[test]
fn depth_to_background_row_offset_is_monotonic() {
    let mut prev = depth_to_background_row_offset(0);
    for depth in 1..=1_024 {
        let next = depth_to_background_row_offset(depth);
        assert!(next >= prev, "row offset should not decrease as depth increases");
        prev = next;
    }
}

#[test]
fn world_depth_increases_from_top_to_bottom_rows() {
    let layer_offset = 7u32;
    let top_row_depth = world_depth_for_tile_row(layer_offset, 0);
    let bottom_row_depth = world_depth_for_tile_row(layer_offset, 19);
    assert!(
        bottom_row_depth > top_row_depth,
        "deeper biome contribution should grow toward lower board rows"
    );
}

#[test]
fn tile_kind_deterministic() {
    let h = tile_hash(42, 5, 3, 0);
    let a = BackgroundTileKind::from_hash(h, BackgroundBiome::Dirt);
    let b = BackgroundTileKind::from_hash(h, BackgroundBiome::Dirt);
    assert_eq!(a, b);
}

#[test]
fn tile_kind_covers_all_rolls_overworld() {
    for roll in 0u32..=255 {
        let _ = BackgroundTileKind::from_hash(roll, BackgroundBiome::Overworld);
    }
}

#[test]
fn tile_kind_covers_all_rolls_dirt() {
    for roll in 0u32..=255 {
        let _ = BackgroundTileKind::from_hash(roll, BackgroundBiome::Dirt);
    }
}

#[test]
fn tile_kind_covers_all_rolls_stone() {
    for roll in 0u32..=255 {
        let _ = BackgroundTileKind::from_hash(roll, BackgroundBiome::Stone);
    }
}

#[test]
fn tile_kind_distribution_dirt_mostly_empty() {
    let empties = (0u32..256)
        .filter(|&r| {
            BackgroundTileKind::from_hash(r, BackgroundBiome::Dirt) == BackgroundTileKind::Empty
        })
        .count();
    assert!(empties > 128, "Dirt biome should be majority Empty tiles");
}

#[test]
fn tile_kind_distribution_overworld_is_low_noise() {
    let empties = (0u32..256)
        .filter(|&r| {
            BackgroundTileKind::from_hash(r, BackgroundBiome::Overworld) == BackgroundTileKind::Empty
        })
        .count();
    assert!(empties > 200, "Overworld should remain mostly empty to keep readability");
}

#[test]
fn tile_kind_distribution_stone_has_rock() {
    let rocks = (0u32..256)
        .filter(|&r| {
            matches!(
                BackgroundTileKind::from_hash(r, BackgroundBiome::Stone),
                BackgroundTileKind::RockA | BackgroundTileKind::RockB
            )
        })
        .count();
    assert!(rocks > 40, "Stone biome should have a notable share of rock tiles");
}

#[test]
fn layer_specs_have_correct_ids() {
    assert_eq!(layer_far().layer_id, BackgroundLayerId::Far);
    assert_eq!(layer_mid().layer_id, BackgroundLayerId::Mid);
    assert_eq!(layer_near().layer_id, BackgroundLayerId::Near);
}

#[test]
fn layer_parallax_factors_increase_front_to_back() {
    assert!(
        layer_far().depth_divisor > layer_mid().depth_divisor,
        "Far should have higher divisor than Mid"
    );
    assert!(
        layer_mid().depth_divisor > layer_near().depth_divisor,
        "Mid should have higher divisor than Near"
    );
}

#[test]
fn layer_alpha_increases_front_to_back() {
    assert!(layer_near().alpha > layer_mid().alpha, "Near should have higher alpha than Mid");
    assert!(layer_mid().alpha > layer_far().alpha, "Mid should have higher alpha than Far");
}

#[test]
fn near_layer_is_full_alpha() {
    assert_eq!(layer_near().alpha, 255);
}

#[test]
fn far_layer_disables_motifs() {
    assert!(!layer_far().motif_enabled, "Far layer should not render motifs");
}

#[test]
fn mid_and_near_layers_enable_motifs() {
    assert!(layer_mid().motif_enabled);
    assert!(layer_near().motif_enabled);
}

#[test]
fn v1_layers_in_back_to_front_order() {
    let layers = v1_layers();
    assert_eq!(layers[0].layer_id, BackgroundLayerId::Far);
    assert_eq!(layers[1].layer_id, BackgroundLayerId::Mid);
    assert_eq!(layers[2].layer_id, BackgroundLayerId::Near);
}

#[test]
fn parallax_offsets_differ_between_layers() {
    let depth = 60u32;
    let far_offset = depth_to_background_row_offset(depth) / layer_far().depth_divisor;
    let mid_offset = depth_to_background_row_offset(depth) / layer_mid().depth_divisor;
    let near_offset = depth_to_background_row_offset(depth) / layer_near().depth_divisor;
    assert!(near_offset >= mid_offset, "Near offset should be >= Mid offset");
    assert!(mid_offset >= far_offset, "Mid offset should be >= Far offset");
    assert_ne!(far_offset, near_offset);
}

#[test]
fn same_tile_same_layer_is_deterministic() {
    for layer in BackgroundLayerId::ALL {
        let h1 = tile_hash(99, 20, 5, layer.index());
        let h2 = tile_hash(99, 20, 5, layer.index());
        assert_eq!(h1, h2, "hash must be deterministic for layer {:?}", layer);
    }
}

#[test]
fn tile_selection_stable_with_fixed_seed_depth_layer() {
    let seed = 12345u64;
    let depth = 30u32;
    let col = 7u32;
    for layer in BackgroundLayerId::ALL {
        let h = tile_hash(seed, depth, col, layer.index());
        let biome = biome_for_world_depth_at_near_col(depth, col, seed, false);
        let kind = BackgroundTileKind::from_hash(h, biome);
        let h2 = tile_hash(seed, depth, col, layer.index());
        let biome2 = biome_for_world_depth_at_near_col(depth, col, seed, false);
        let kind2 = BackgroundTileKind::from_hash(h2, biome2);
        assert_eq!(biome, biome2);
        assert_eq!(kind, kind2);
    }
}

#[test]
fn biome_palettes_have_their_base_colours() {
    assert_eq!(palette_for_biome(BackgroundBiome::Overworld).base, [90, 112, 144, 255]);
    assert_eq!(palette_for_biome(BackgroundBiome::Dirt).fossil, [94, 76, 58, 255]);
    assert_eq!(palette_for_biome(BackgroundBiome::Stone).crack, [10, 12, 18, 255]);
}

fn test_palette() -> game::background::BackgroundPalette {
    palette_for_biome(BackgroundBiome::Dirt)
}

#[test]
fn tile_motifs_are_placed_inside_the_tile() {
    let p = test_palette();
    let rect = Rect::new(0, 0, 12, 12);
    let d = |x, y, w, h, color, alpha| TileDraw { rect: Rect::new(x, y, w, h), color, alpha };
    assert!(tile_motif_rects(rect, BackgroundTileKind::Empty, p, 255).is_empty());
    assert!(tile_motif_rects(Rect::new(0, 0, 0, 5), BackgroundTileKind::Fossil, p, 255).is_empty());
    assert_eq!(tile_motif_rects(rect, BackgroundTileKind::DirtA, p, 200), vec![d(4, 4, 4, 4, p.accent_a, 200)]);
    assert_eq!(tile_motif_rects(rect, BackgroundTileKind::Vein, p, 255), vec![d(5, 0, 2, 12, p.vein, 255)]);
    assert_eq!(
        tile_motif_rects(rect, BackgroundTileKind::Fossil, p, 255),
        vec![
            d(3, 3, 6, 1, p.fossil, 255),
            d(3, 8, 6, 1, p.fossil, 255),
            d(3, 3, 1, 6, p.fossil, 255),
            d(8, 3, 1, 6, p.fossil, 255),
        ]
    );
    assert_eq!(
        tile_motif_rects(rect, BackgroundTileKind::Cloud, p, 255),
        vec![d(2, 4, 8, 2, p.accent_a, 160), d(3, 7, 5, 2, p.accent_b, 160)]
    );
}

#[test]
fn tile_layer_covers_the_viewport_with_a_row_of_margin() {
    let env = TileLayerSettings {
        cell_size: 16,
        depth_divisor: 1,
        forced_biome: Some(BackgroundBiome::Stone),
        legacy_underground_start: false,
    };
    let tiles = tile_layer_tiles(Rect::new(0, 0, 32, 16), layer_near(), 9, 0, 0, env);
    assert_eq!(tiles.len(), 6);
    assert_eq!((tiles[0].x, tiles[0].y, tiles[0].w, tiles[0].h), (0, -16, 16, 16));
    assert_eq!((tiles[1].x, tiles[1].y), (16, -16));
    assert_eq!((tiles[5].x, tiles[5].y), (16, 16));
    assert_eq!(tiles[0].world_depth, 0);
    assert_eq!(tiles[4].world_depth, 1);
    assert_eq!(tiles[3].hash, tile_hash(9, 0, 1, 2));
    assert!(tiles.iter().all(|t| t.biome == BackgroundBiome::Stone && !t.grassline));
}

// -- the background's tiles over a board, layer by layer (what the client draws) -------------

fn test_board_rect() -> Rect {
    Rect::new(120, 0, 240, 360)
}

/// The tiles of every layer, back to front, over the test board at `depth_rows`.
fn draw_background_frame(seed: u64, depth_rows: u32) -> Vec<game::background::tiles::TilePlan> {
    let mut tiles = Vec::new();
    for layer in v1_layers() {
        let env = TileLayerSettings {
            cell_size: 16,
            depth_divisor: layer.depth_divisor,
            forced_biome: None,
            legacy_underground_start: false,
        };
        tiles.extend(tile_layer_tiles(test_board_rect(), layer, seed, depth_rows, 0, env));
    }
    tiles
}

#[test]
fn draw_tile_background_same_seed_and_depth_matches() {
    let a = draw_background_frame(777, 12);
    let b = draw_background_frame(777, 12);
    assert_eq!(a, b, "same seed + depth should draw identical background");
}

#[test]
fn draw_tile_background_scrolls_when_depth_changes() {
    let a = draw_background_frame(777, 12);
    let b = draw_background_frame(777, 13);
    assert_ne!(a, b, "depth offset should move visible tile pattern");
}

#[test]
fn draw_tile_background_differs_between_surface_and_deep_depths() {
    let surface = draw_background_frame(42, 0);
    let stone = draw_background_frame(42, 80);
    assert_ne!(surface, stone, "background should look different between Overworld and deep Stone depths");
}

#[test]
fn draw_tile_background_first_dig_step_changes_surface_frame() {
    let start = draw_background_frame(42, 0);
    let progressed = draw_background_frame(42, 1);
    let changed = start.iter().zip(progressed.iter()).filter(|(a, b)| a != b).count();
    assert!(changed > 0, "first dig step should change the rendered background frame");
}

#[test]
fn draw_tile_background_positive_offset_keeps_top_edge_filled() {
    let board = test_board_rect();
    let (sx, sy) = (board.x + 1, board.y as i64 + 1);
    for layer in v1_layers() {
        let env = TileLayerSettings {
            cell_size: 16,
            depth_divisor: layer.depth_divisor,
            forced_biome: None,
            legacy_underground_start: false,
        };
        let tiles = tile_layer_tiles(board, layer, 42, 0, 8, env);
        let covered = tiles.iter().any(|t| {
            t.x <= sx && sx < t.x + t.w && (t.y as i64) <= sy && sy < t.y as i64 + t.h as i64
        });
        assert!(covered, "top edge should remain background-filled while content is partially offset");
    }
}
