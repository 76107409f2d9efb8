use game::headful::input_adapter::apply_editor_tool_at_world;
use game::headful::skilltree_camera::skilltree_node_at_world;
use game::piece::Vec2i;
use game::skilltree::runtime::{
    fallback_def, MAX_COIN_MONEY_BONUS, MAX_DEEP_SHAFT_ROWS, MAX_HOLE_CHANCE_BP,
};
use game::skilltree::{
    normalize_and_validate, skilltree_world_bounds, NodeState, SkillEffect, SkillNodeDef, SkillTreeEditorTool,
    SkillTreeDef, SkillTreeEditorHistory, SkillTreeEditorState, SkillTreeProgress,
    SkillTreeRuntime, SkillTreeSnapshot,
};

fn node(id: &str, name: &str, pos: Vec2i, shape: Vec<Vec2i>, cost: u32, requires: Vec<&str>, effect: SkillEffect) -> SkillNodeDef {
    SkillNodeDef {
        id: id.to_string(),
        name: name.to_string(),
        pos,
        shape,
        color: 1,
        cost,
        requires: requires.into_iter().map(|s| s.to_string()).collect(),
        effect,
    }
}

fn start_node() -> SkillNodeDef {
    SkillNodeDef {
        id: "start".to_string(),
        name: "START".to_string(),
        pos: Vec2i::new(0, 0),
        shape: vec![Vec2i::new(0, 0)],
        color: 3,
        cost: 0,
        requires: vec![],
        effect: SkillEffect::NoEffect,
    }
}

fn make_editor_runtime() -> SkillTreeRuntime {
    let def = SkillTreeDef { version: 1, nodes: vec![start_node()] };
    let progress = SkillTreeProgress { version: 1, money: 0, unlocked: vec!["start".to_string()] };
    let mut rt = SkillTreeRuntime::from_snapshot(SkillTreeSnapshot {
        def,
        progress,
        editor: SkillTreeEditorState::default(),
    });
    rt.editor.enabled = true;
    rt
}

fn runtime_with(nodes: Vec<SkillNodeDef>, unlocked: Vec<&str>, money: u32) -> SkillTreeRuntime {
    SkillTreeRuntime::from_snapshot(SkillTreeSnapshot {
        def: SkillTreeDef { version: 1, nodes },
        progress: SkillTreeProgress {
            version: 1,
            money,
            unlocked: unlocked.into_iter().map(|s| s.to_string()).collect(),
        },
        editor: SkillTreeEditorState::default(),
    })
}

#[test]
fn normalize_shifts_negative_rel_cells_into_shape_origin_and_adjusts_pos() {
    let mut def = SkillTreeDef {
        version: 1,
        nodes: vec![SkillNodeDef {
            id: "a".to_string(),
            name: "A".to_string(),
            pos: Vec2i::new(10, 10),
            shape: vec![Vec2i::new(-1, 0), Vec2i::new(0, 0)],
            color: 1,
            cost: 0,
            requires: vec![],
            effect: SkillEffect::NoEffect,
        }],
    };

    normalize_and_validate(&mut def);
    let n = &def.nodes[0];

    assert_eq!(n.pos, Vec2i::new(9, 10));
    assert!(n.shape.contains(&Vec2i::new(0, 0)));
    assert!(n.shape.contains(&Vec2i::new(1, 0)));
    assert_eq!(n.shape.len(), 2);
}

#[test]
fn normalize_dedups_shape_cells() {
    let mut def = SkillTreeDef {
        version: 1,
        nodes: vec![SkillNodeDef {
            id: "a".to_string(),
            name: "A".to_string(),
            pos: Vec2i::new(0, 0),
            shape: vec![Vec2i::new(0, 0), Vec2i::new(0, 0), Vec2i::new(1, 0)],
            color: 1,
            cost: 0,
            requires: vec![],
            effect: SkillEffect::NoEffect,
        }],
    };

    normalize_and_validate(&mut def);
    assert_eq!(def.nodes[0].shape.len(), 2);
}

#[test]
fn rebuild_caches_prunes_unknown_unlocks_and_keeps_start_when_present() {
    let def = SkillTreeDef {
        version: 1,
        nodes: vec![
            start_node(),
            SkillNodeDef {
                id: "a".to_string(),
                name: "A".to_string(),
                pos: Vec2i::new(1, 0),
                shape: vec![Vec2i::new(0, 0)],
                color: 4,
                cost: 1,
                requires: vec!["start".to_string()],
                effect: SkillEffect::NoEffect,
            },
        ],
    };
    let progress = SkillTreeProgress { version: 1, money: 0, unlocked: vec!["missing".to_string()] };

    let mut rt = SkillTreeRuntime {
        def,
        progress,
        editor: SkillTreeEditorState::default(),
        editor_history: SkillTreeEditorHistory { undo_defs: Vec::new(), redo_defs: Vec::new() },
    };

    rt.rebuild_caches();

    assert!(rt.progress.unlocked.iter().any(|id| id == "start"));
    assert!(!rt.progress.unlocked.iter().any(|id| id == "missing"));
    assert!(rt.is_unlocked("start"));
    assert!(!rt.is_unlocked("missing"));
}

#[test]
fn skilltree_world_bounds_includes_all_node_cells() {
    let def = SkillTreeDef {
        version: 1,
        nodes: vec![
            SkillNodeDef {
                id: "a".to_string(),
                name: "A".to_string(),
                pos: Vec2i::new(0, 0),
                shape: vec![Vec2i::new(0, 0), Vec2i::new(1, 0)],
                color: 1,
                cost: 0,
                requires: vec![],
                effect: SkillEffect::NoEffect,
            },
            SkillNodeDef {
                id: "b".to_string(),
                name: "B".to_string(),
                pos: Vec2i::new(-2, 3),
                shape: vec![Vec2i::new(0, 0), Vec2i::new(0, 1)],
                color: 2,
                cost: 0,
                requires: vec![],
                effect: SkillEffect::NoEffect,
            },
        ],
    };

    let bounds = skilltree_world_bounds(&def).expect("expected bounds for non-empty def");
    assert_eq!(bounds.min, Vec2i::new(-2, 0));
    assert_eq!(bounds.max, Vec2i::new(1, 4));
}

#[test]
fn editor_delete_guardrail_requires_confirm_press() {
    let mut rt = make_editor_runtime();
    let id = rt.editor_create_node_at(Vec2i::new(3, 0));
    assert!(rt.node_index(&id).is_some());

    assert!(!rt.editor_request_delete_selected());
    assert_eq!(rt.editor.pending_delete_id.as_deref(), Some(id.as_str()));
    assert!(rt.node_index(&id).is_some());

    assert!(rt.editor_request_delete_selected());
    assert!(rt.node_index(&id).is_none());
}

#[test]
fn editor_undo_redo_roundtrips_create_mutation() {
    let mut rt = make_editor_runtime();
    let id = rt.editor_create_node_at(Vec2i::new(2, 2));
    assert!(rt.node_index(&id).is_some());
    assert!(rt.editor_can_undo());

    assert!(rt.editor_undo());
    assert!(rt.node_index(&id).is_none());
    assert!(rt.editor_can_redo());

    assert!(rt.editor_redo());
    assert!(rt.node_index(&id).is_some());
}

#[test]
fn editor_duplicate_selected_uses_stable_copy_suffix() {
    let mut rt = make_editor_runtime();
    let id = rt.editor_create_node_at(Vec2i::new(4, 1));

    let dup_id = rt
        .editor_duplicate_selected()
        .expect("duplicate should succeed for selected node");
    assert_eq!(dup_id, format!("{id}_copy"));
    assert!(rt.node_index(&dup_id).is_some());
}

#[test]
fn editor_select_matching_finds_by_name_prefix() {
    let mut rt = make_editor_runtime();
    let id = rt.editor_create_node_at(Vec2i::new(5, 0));
    if let Some(node) = rt.node_mut(&id) {
        node.name = "Power Burst".to_string();
    }
    rt.rebuild_caches();

    let hit = rt.editor_select_matching("pow");
    assert_eq!(hit.as_deref(), Some(id.as_str()));
    assert_eq!(rt.editor.selected.as_deref(), Some(id.as_str()));
}

#[test]
fn run_mods_accumulate_bottomwell_effects() {
    let rt = runtime_with(
        vec![
            start_node(),
            node("deep", "DEEP", Vec2i::new(1, 0), vec![Vec2i::new(0, 0)], 1, vec!["start"], SkillEffect::AddDeepShaftRows { rows: 1 }),
            node("ore", "ORE", Vec2i::new(2, 0), vec![Vec2i::new(0, 0)], 1, vec!["start"], SkillEffect::AddOreWeight { points: 2 }),
            node("coin", "COIN", Vec2i::new(3, 0), vec![Vec2i::new(0, 0)], 1, vec!["start"], SkillEffect::AddCoinMoneyValue { points: 3 }),
        ],
        vec!["start", "deep", "ore", "coin"],
        0,
    );
    let mods = rt.run_mods();
    assert_eq!(mods.deep_shaft_rows, 1);
    assert_eq!(mods.ore_weight_points, 2);
    assert_eq!(mods.coin_money_bonus, 3);
}

#[test]
fn run_mods_clamp_bottomwell_effect_caps() {
    let rt = runtime_with(
        vec![
            start_node(),
            node("deep", "DEEP", Vec2i::new(1, 0), vec![Vec2i::new(0, 0)], 1, vec!["start"], SkillEffect::AddDeepShaftRows { rows: 99 }),
            node("align", "ALIGN", Vec2i::new(2, 0), vec![Vec2i::new(0, 0)], 1, vec!["start"], SkillEffect::AddHoleAlignChanceBp { basis_points: 99_999 }),
            node("money", "MONEY", Vec2i::new(3, 0), vec![Vec2i::new(0, 0)], 1, vec!["start"], SkillEffect::AddCoinMoneyValue { points: 99 }),
        ],
        vec!["start", "deep", "align", "money"],
        0,
    );
    let mods = rt.run_mods();
    assert_eq!(mods.deep_shaft_rows, MAX_DEEP_SHAFT_ROWS);
    assert_eq!(mods.hole_align_chance_bp, MAX_HOLE_CHANCE_BP);
    assert_eq!(mods.coin_money_bonus, MAX_COIN_MONEY_BONUS);
}

// ---- further cases ----

#[test]
fn normalize_names_blank_ids_and_suffixes_repeated_ids() {
    let mut def = SkillTreeDef {
        version: 0,
        nodes: vec![
            node("a", "A", Vec2i::new(0, 0), vec![], 0, vec![], SkillEffect::NoEffect),
            node("a", " ", Vec2i::new(1, 0), vec![Vec2i::new(0, 0)], 0, vec![], SkillEffect::NoEffect),
            node("  ", "", Vec2i::new(2, 0), vec![Vec2i::new(0, 0)], 0, vec![], SkillEffect::NoEffect),
            node("a", "third", Vec2i::new(3, 0), vec![Vec2i::new(0, 0)], 0, vec![], SkillEffect::NoEffect),
        ],
    };
    normalize_and_validate(&mut def);
    assert_eq!(def.version, 1);
    let ids: Vec<&str> = def.nodes.iter().map(|n| n.id.as_str()).collect();
    assert_eq!(ids, vec!["a", "a_2", "unnamed", "a_3"]);
    assert_eq!(def.nodes[1].name, "a");
    assert_eq!(def.nodes[2].name, "unnamed");
    // an empty shape gets the origin cell
    assert_eq!(def.nodes[0].shape, vec![Vec2i::new(0, 0)]);
}

#[test]
fn normalize_sorts_dedups_and_prunes_requires() {
    let mut def = SkillTreeDef {
        version: 2,
        nodes: vec![
            node("b", "B", Vec2i::new(0, 0), vec![Vec2i::new(0, 0)], 0, vec![], SkillEffect::NoEffect),
            node("a", "A", Vec2i::new(1, 0), vec![Vec2i::new(0, 0)], 0, vec!["zz", "b", "a", "b", "gone"], SkillEffect::NoEffect),
            node("zz", "Z", Vec2i::new(2, 0), vec![Vec2i::new(0, 0)], 0, vec![], SkillEffect::NoEffect),
        ],
    };
    normalize_and_validate(&mut def);
    assert_eq!(def.version, 2);
    assert_eq!(def.nodes[1].requires, vec!["a".to_string(), "b".to_string(), "zz".to_string()]);
}

#[test]
fn buying_pays_and_unlocks_only_available_nodes() {
    let mut rt = runtime_with(
        vec![
            start_node(),
            node("a", "A", Vec2i::new(1, 0), vec![Vec2i::new(0, 0)], 5, vec!["start"], SkillEffect::AddScoreBonus { bonus: 2 }),
            node("b", "B", Vec2i::new(2, 0), vec![Vec2i::new(0, 0)], 1, vec!["a"], SkillEffect::NoEffect),
        ],
        vec!["start"],
        4,
    );
    let a = rt.def.nodes[1].clone();
    let b = rt.def.nodes[2].clone();
    assert_eq!(rt.node_state(&a), NodeState::Available);
    assert_eq!(rt.node_state(&b), NodeState::Locked);
    assert!(!rt.can_buy(&a));
    assert!(!rt.try_buy("a"));
    rt.add_money(3);
    assert_eq!(rt.money(), 7);
    assert!(rt.try_buy("a"));
    assert_eq!(rt.money(), 2);
    assert_eq!(rt.node_state(&a), NodeState::Unlocked);
    assert_eq!(rt.node_state(&b), NodeState::Available);
    assert!(!rt.try_buy("a"));
    assert!(!rt.try_buy("nope"));
    assert_eq!(rt.run_mods().score_bonus_per_line, 2);
    rt.add_money(u32::MAX);
    assert_eq!(rt.money(), u32::MAX);
}

#[test]
fn editor_cell_painting_never_empties_a_shape() {
    let mut rt = make_editor_runtime();
    let id = rt.editor_create_node_at(Vec2i::new(10, 10));
    assert!(!rt.editor_toggle_cell_at_world(Vec2i::new(10, 10)));
    assert!(rt.editor_add_cell_at_world(Vec2i::new(9, 10)));
    let idx = rt.node_index(&id).unwrap();
    // the shape shifted so that its smallest x is zero, the anchor moved left
    assert_eq!(rt.def.nodes[idx].pos, Vec2i::new(9, 10));
    assert_eq!(rt.def.nodes[idx].shape, vec![Vec2i::new(1, 0), Vec2i::new(0, 0)]);
    assert!(!rt.editor_add_cell_at_world(Vec2i::new(9, 10)));
    assert!(rt.editor_remove_cell_at_world(Vec2i::new(10, 10)));
    assert!(!rt.editor_remove_cell_at_world(Vec2i::new(9, 10)));
    assert_eq!(rt.editor.status.as_deref(), Some(format!("REMOVE {id}").as_str()));
}

#[test]
fn editor_tools_cycle_and_status_names_them() {
    let mut rt = make_editor_runtime();
    rt.editor_cycle_tool();
    assert_eq!(rt.editor.status.as_deref(), Some("TOOL Move"));
    rt.editor_cycle_tool();
    rt.editor_cycle_tool();
    rt.editor_cycle_tool();
    assert_eq!(rt.editor.status.as_deref(), Some("TOOL ConnectPrereqs"));
    rt.editor_cycle_tool();
    assert_eq!(rt.editor.status.as_deref(), Some("TOOL Select"));
    rt.editor_toggle();
    assert!(!rt.editor.enabled);
    assert_eq!(rt.editor.status.as_deref(), Some("EDITOR OFF"));
}

#[test]
fn editor_search_prefers_exact_then_prefix_then_substring() {
    let mut rt = make_editor_runtime();
    rt.editor_open_search();
    rt.editor_append_search_char('s');
    rt.editor_append_search_char('x');
    rt.editor_pop_search_char();
    assert_eq!(rt.editor.search_query, "s");
    assert_eq!(rt.editor_find_first_matching("  START "), Some("start".to_string()));
    assert_eq!(rt.editor_find_first_matching("tar"), Some("start".to_string()));
    assert_eq!(rt.editor_find_first_matching("   "), None);
    assert_eq!(rt.editor_find_first_matching("zzz"), None);
}

#[test]
fn editor_prereq_toggle_and_move_record_history() {
    let mut rt = make_editor_runtime();
    let id = rt.editor_create_node_at(Vec2i::new(1, 1));
    assert!(rt.editor_toggle_prereq("start", &id));
    let idx = rt.node_index(&id).unwrap();
    assert_eq!(rt.def.nodes[idx].requires, vec!["start".to_string()]);
    assert!(!rt.editor_toggle_prereq(&id, &id));
    assert!(rt.editor_nudge_selected_by(Vec2i::new(2, -1)));
    let idx = rt.node_index(&id).unwrap();
    assert_eq!(rt.def.nodes[idx].pos, Vec2i::new(3, 0));
    assert!(!rt.editor_move_selected_to(Vec2i::new(3, 0)));
    assert!(rt.editor_undo());
    let idx = rt.node_index(&id).unwrap();
    assert_eq!(rt.def.nodes[idx].pos, Vec2i::new(1, 1));
    assert_eq!(rt.editor.status.as_deref(), Some("UNDO"));
}

#[test]
fn load_warning_status_round_trips() {
    let mut rt = make_editor_runtime();
    assert_eq!(rt.load_warning_message(), None);
    rt.set_load_warning_status(Some("bad file".to_string()));
    assert_eq!(rt.editor.status.as_deref(), Some("SKILLTREE LOAD ERROR: bad file"));
    assert_eq!(rt.load_warning_message(), Some("bad file".to_string()));
    rt.set_load_warning_status(None);
    assert_eq!(rt.editor.status, None);
}

#[test]
fn fallback_tree_is_a_single_start_node() {
    let def = fallback_def();
    assert_eq!(def.version, 1);
    assert_eq!(def.nodes.len(), 1);
    assert_eq!(def.nodes[0].id, "start");
}

#[test]
fn normalizing_twice_changes_nothing() {
    let mut def = SkillTreeDef {
        version: 0,
        nodes: vec![
            node("a", " ", Vec2i::new(5, 5), vec![Vec2i::new(-2, 1), Vec2i::new(-2, 1), Vec2i::new(0, -3)], 0, vec!["b", "x", "a"], SkillEffect::NoEffect),
            node("a", "B", Vec2i::new(0, 0), vec![], 0, vec![], SkillEffect::NoEffect),
            node("b", "C", Vec2i::new(1, 1), vec![Vec2i::new(3, 3)], 0, vec!["a_2"], SkillEffect::NoEffect),
        ],
    };
    normalize_and_validate(&mut def);
    let once = def.clone();
    normalize_and_validate(&mut def);
    assert_eq!(def, once);
    assert_eq!(once.nodes[0].pos, Vec2i::new(3, 2));
    assert_eq!(once.nodes[0].shape, vec![Vec2i::new(0, 4), Vec2i::new(2, 0)]);
    assert_eq!(once.nodes[1].id, "a_2");
    assert_eq!(once.nodes[0].requires, vec!["a".to_string(), "b".to_string()]);
    assert_eq!(once.nodes[2].requires, vec!["a_2".to_string()]);
}

#[test]
fn undo_after_edit_restores_the_definition() {
    let mut rt = make_editor_runtime();
    let before = rt.def.clone();
    let id = rt.editor_create_node_at(Vec2i::new(7, 7));
    assert!(rt.editor_add_cell_at_world(Vec2i::new(8, 7)));
    assert!(rt.editor_undo());
    assert!(rt.editor_undo());
    assert_eq!(rt.def, before);
    assert!(rt.node_index(&id).is_none());
    assert!(rt.editor_redo());
    assert!(rt.node_index(&id).is_some());
}

#[test]
fn editor_tools_act_at_the_cursor() {
    let mut rt = make_editor_runtime();
    assert!(apply_editor_tool_at_world(&mut rt, Vec2i::new(0, 0)));
    assert_eq!(rt.editor.selected.as_deref(), Some("start"));
    assert!(!apply_editor_tool_at_world(&mut rt, Vec2i::new(5, 5)));
    assert_eq!(rt.editor.selected, None);
    assert_eq!(rt.editor.cursor_world, Vec2i::new(5, 5));
    assert_eq!(skilltree_node_at_world(&rt, Vec2i::new(0, 0)), Some("start"));
    assert_eq!(skilltree_node_at_world(&rt, Vec2i::new(1, 0)), None);

    rt.editor_set_tool(SkillTreeEditorTool::Move);
    assert!(apply_editor_tool_at_world(&mut rt, Vec2i::new(0, 0)));
    assert!(apply_editor_tool_at_world(&mut rt, Vec2i::new(3, 2)));
    assert_eq!(rt.def.nodes[0].pos, Vec2i::new(3, 2));

    let id = rt.editor_create_node_at(Vec2i::new(10, 0));
    rt.editor_set_tool(SkillTreeEditorTool::ConnectPrereqs);
    assert!(apply_editor_tool_at_world(&mut rt, Vec2i::new(3, 2)));
    assert_eq!(rt.editor.status.as_deref(), Some("LINK SOURCE start"));
    assert!(apply_editor_tool_at_world(&mut rt, Vec2i::new(10, 0)));
    assert_eq!(rt.editor.status, Some(format!("LINK start -> {id} (SOURCE start)")));
    let idx = rt.node_index(&id).unwrap();
    assert_eq!(rt.def.nodes[idx].requires, vec!["start".to_string()]);
    assert!(!apply_editor_tool_at_world(&mut rt, Vec2i::new(3, 2)));
    assert_eq!(rt.editor.status.as_deref(), Some("LINK SOURCE CLEARED"));

    rt.editor_set_tool(SkillTreeEditorTool::AddCell);
    rt.editor_select(&id, None);
    assert!(apply_editor_tool_at_world(&mut rt, Vec2i::new(11, 0)));
    let idx = rt.node_index(&id).unwrap();
    assert_eq!(rt.def.nodes[idx].shape.len(), 2);
    rt.editor_set_tool(SkillTreeEditorTool::RemoveCell);
    assert!(apply_editor_tool_at_world(&mut rt, Vec2i::new(3, 2)));
    assert_eq!(rt.editor.selected.as_deref(), Some("start"));
}
