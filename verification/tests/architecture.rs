use bof::source_rules::{
    has_unsafe, installs_an_inner_simulation_plugin, materials_registered_outside_the_registry,
    names_the_simulation_crate, production_source, reaches_facade_or_physics, reaches_rendering,
    reads_hardware,
};

#[test]
fn the_registry_rule_sees_a_material_that_skips_it() {
    let planted = vec![(
        "src/visuals/water.rs".to_string(),
        "app.add_plugins(MaterialPlugin::<WaterMaterial>::default());".to_string(),
    )];
    assert_eq!(
        materials_registered_outside_the_registry(&planted),
        vec!["WaterMaterial (registrado en src/visuals/water.rs)".to_string()],
    );
    let through_the_registry = vec![(
        "src/visuals/water.rs".to_string(),
        "app.add_instrumented_material::<WaterMaterial>();".to_string(),
    )];
    assert!(
        materials_registered_outside_the_registry(&through_the_registry).is_empty(),
        "un material que sí pasa por el registro no puede reportarse como fuga"
    );
}

#[test]
fn the_hardware_rule_sees_a_planted_reader() {
    assert!(
        reads_hardware("fn s(keys: Res<ButtonInput<KeyCode>>) {}"),
        "la regla de hardware no ve un `ButtonInput` en producción"
    );
    assert!(
        !reads_hardware("#[cfg(test)]\nmod tests {\n  Res<ButtonInput<KeyCode>>\n}"),
        "los tests sí pueden fabricar input"
    );
    assert!(
        reads_hardware("fn real(k: Res<ButtonInput<KeyCode>>) {}\n#[cfg(test)]\nmod tests {}"),
        "un `mod tests` al final no puede esconder lo que hay antes"
    );
    assert!(
        reads_hardware("#[cfg(test)]\nfn fixture() {}\nfn real(k: Res<ButtonInput<KeyCode>>) {}"),
        "un `#[cfg(test)]` sobre una función suelta no puede cegar lo que sigue"
    );
}

#[test]
fn the_unsafe_rule_sees_a_planted_block() {
    assert!(has_unsafe("unsafe { *ptr }"), "no ve un bloque `unsafe`");
    assert!(
        !has_unsafe("#[cfg(test)]\nmod tests {\n unsafe { }\n}"),
        "sólo mira producción"
    );
    assert!(
        !has_unsafe("// nada inseguro acá\nfn safe() {}"),
        "no puede acusar a código limpio"
    );
}

#[test]
fn the_domain_rule_sees_the_facade_and_physics() {
    assert!(reaches_facade_or_physics("use bevy::prelude::*;"));
    assert!(reaches_facade_or_physics("use avian3d::prelude::Collider;"));
    assert!(
        !reaches_facade_or_physics("use bevy_ecs::prelude::*;\nuse bevy_math::Vec3;"),
        "los crates sueltos de Bevy son justo lo que domain sí puede usar"
    );
}

#[test]
fn the_simulation_rule_sees_rendering() {
    assert!(reaches_rendering("Mesh3d(meshes.add(shape))"));
    assert!(reaches_rendering(
        "MeshMaterial3d(materials.add(StandardMaterial"
    ));
    assert!(
        !reaches_rendering("use avian3d::prelude::*;\nuse bevy_ecs::prelude::*;"),
        "la física sí es de simulación; lo prohibido es el render"
    );
}

#[test]
fn the_plugin_rule_sees_an_inner_plugin() {
    assert!(
        installs_an_inner_simulation_plugin("app.add_plugins(bof_simulation::world::WorldPlugin);"),
        "no ve el doble registro que rompió el arranque"
    );
    assert!(
        !installs_an_inner_simulation_plugin("app.add_plugins(SimulationPlugin);"),
        "el plugin raíz es justamente el que sí se instala"
    );
    assert!(
        !installs_an_inner_simulation_plugin(
            "app.add_plugins(menu::MenuPlugin);\nfn later() { bof_simulation::player::spawn_player(); }"
        ),
        "mencionar el crate lejos de un `add_plugins` no es instalar un plugin"
    );
}

#[test]
fn the_presentation_rule_sees_the_simulation_crate() {
    assert!(names_the_simulation_crate(
        "use bof_simulation::movement::Actor;"
    ));
    assert!(
        !names_the_simulation_crate("use bof_domain::movement::Actor;"),
        "leer domain es exactamente lo que presentación sí puede hacer"
    );
}

#[test]
fn production_ends_at_the_first_test_module_of_any_visibility() {
    assert_eq!(production_source("fn a() {}\n#[cfg(test)]\nmod tests {}"), "fn a() {}\n");
    assert_eq!(
        production_source("fn a() {}\n#[cfg(test)]\npub(crate) mod t {}\n#[cfg(test)]\nmod u {}"),
        "fn a() {}\n"
    );
    assert_eq!(production_source("fn b() {}\n#[cfg(test)]\npub mod t {}"), "fn b() {}\n");
    assert_eq!(production_source("#[cfg(test)]\nfn f() {}"), "#[cfg(test)]\nfn f() {}");
    assert_eq!(production_source(""), "");
}

#[test]
fn the_plugin_rule_reads_only_the_call_argument() {
    // The root plugin by its full path is the allowed one.
    assert!(!installs_an_inner_simulation_plugin(
        "app.add_plugins(bof_simulation::SimulationPlugin);"
    ));
    // Inside a tuple, any inner path still counts.
    assert!(installs_an_inner_simulation_plugin(
        "app.add_plugins((bof_simulation::SimulationPlugin, bof_simulation::combat::CombatPlugin));"
    ));
    // A call that never closes has no argument to read.
    assert!(!installs_an_inner_simulation_plugin("app.add_plugins(bof_simulation::x::X"));
    // A plugin installed by the tests does not count.
    assert!(!installs_an_inner_simulation_plugin(
        "fn a() {}\n#[cfg(test)]\nmod tests { app.add_plugins(bof_simulation::world::WorldPlugin); }"
    ));
    // The call's own `);` bounds it, not a later one.
    assert!(!installs_an_inner_simulation_plugin(
        "app.add_plugins(MenuPlugin);\napp.add_systems(bof_simulation::x::y);"
    ));
}

#[test]
fn the_registry_itself_and_the_exempt_material_report_nothing() {
    let files = vec![
        (
            "src/visuals/material_registry.rs".to_string(),
            "app.add_plugins(MaterialPlugin::<GrassMaterial>::default());".to_string(),
        ),
        (
            "src/visuals/diagnostic.rs".to_string(),
            "app.add_plugins(MaterialPlugin::< AdditiveOverdrawMaterial >::default());".to_string(),
        ),
        (
            "src/visuals/sky.rs".to_string(),
            "a(MaterialPlugin::< SkyMaterial >::default()); b(MaterialPlugin::<CloudMaterial>);"
                .to_string(),
        ),
    ];
    assert_eq!(
        materials_registered_outside_the_registry(&files),
        vec![
            "SkyMaterial (registrado en src/visuals/sky.rs)".to_string(),
            "CloudMaterial (registrado en src/visuals/sky.rs)".to_string(),
        ]
    );
}

#[test]
fn a_file_over_the_commentary_ceiling_is_flagged() {
    let file = |comments: usize, code: usize| {
        let mut text = String::new();
        for _ in 0..comments {
            text.push_str("    // why\n");
        }
        for _ in 0..code {
            text.push_str("let x = 1;\n\n   \n");
        }
        text
    };
    // 31 of 100 non-blank lines are comments: over the ceiling.
    assert!(bof::source_rules::mostly_commentary(&file(31, 69)));
    // 30 of 100 is exactly the ceiling, which is allowed.
    assert!(!bof::source_rules::mostly_commentary(&file(30, 70)));
    // Under a hundred non-blank lines the ratio is noise.
    assert!(!bof::source_rules::mostly_commentary(&file(99, 0)));
    // Blank lines do not count either way.
    assert!(bof::source_rules::mostly_commentary(&file(60, 40)));
    assert!(!bof::source_rules::mostly_commentary(""));
}

#[test]
fn the_debt_list_only_shrinks() {
    let owned = |items: &[&str]| items.iter().map(|s| s.to_string()).collect::<Vec<String>>();
    let debt = owned(&["src/a.rs", "src/b.rs", "src/c.rs"]);
    let report = bof::source_rules::debt_report(&owned(&["src/a.rs", "src/z.rs", "src/c.rs"]), &debt);
    assert_eq!(report.new, owned(&["src/z.rs"]));
    assert_eq!(report.paid, owned(&["src/b.rs"]));
    let clean = bof::source_rules::debt_report(&debt, &debt);
    assert!(clean.new.is_empty() && clean.paid.is_empty());
}

#[test]
fn the_editor_rule_wants_one_guarded_install() {
    let rule = bof::source_rules::editor_installed_only_in_editor_mode;
    let guarded = "fn main() {\n    if mode == scene::AppMode::Editor {\n        app.add_plugins(editor::EditorPlugin);\n    }\n}\n";
    assert!(rule(guarded));
    assert!(!rule("fn main() {\n    app.add_plugins(editor::EditorPlugin);\n}\n"));
    assert!(!rule(
        "if mode == scene::AppMode::Editor {\n app.add_plugins(editor::EditorPlugin);\n}\napp.add_plugins(editor::EditorPlugin);"
    ));
    assert!(!rule(
        "if mode == scene::AppMode::Editor {}\n#[cfg(test)]\nmod tests { editor::EditorPlugin }"
    ));
    // Two mentions on one line are one install line.
    assert!(rule("if mode == scene::AppMode::Editor { a(editor::EditorPlugin, editor::EditorPlugin) }"));
}
