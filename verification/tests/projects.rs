use epic_asset_manager::projects::{
    compare_projects, compare_text, extension_of, file_stem_of, find_uproject, parent_of, to_lowercase, DirEntry,
    EpicProjectsBox, Msg, NameOrder, ProjectData, ProjectsBoxProperty, ProjectsBoxValue, scan_entry, ScanAction,
};

fn named(name: Option<&str>) -> ProjectData {
    ProjectData { path: None, name: name.map(|s| s.to_string()) }
}

#[test]
fn path_wrappers_follow_std() {
    assert_eq!(parent_of("/home/u/Game/Game.uproject"), Some("/home/u/Game".to_string()));
    assert_eq!(parent_of("/"), None);
    assert_eq!(parent_of(""), None);
    assert_eq!(file_stem_of("/home/u/Game/Game.uproject"), Some("Game".to_string()));
    assert_eq!(extension_of("/home/u/Game/Game.uproject"), Some("uproject".to_string()));
    assert_eq!(extension_of("/home/u/Game/README"), None);
    assert_eq!(to_lowercase("ÀbC"), "àbc");
}

#[test]
fn add_project_adds_one_row_per_directory() {
    let mut projects = EpicProjectsBox::new();
    projects.add_project("/home/u/Game/Game.uproject");
    projects.add_project("/home/u/Game/Game.uproject");
    let grid = projects.grid();
    assert_eq!(grid.len(), 1);
    assert_eq!(grid[0].path.as_deref(), Some("/home/u/Game/Game.uproject"));
    assert_eq!(grid[0].name.as_deref(), Some("Game"));
    assert_eq!(projects.projects(), vec![("/home/u/Game".to_string(), "Game".to_string())]);

    // a second project file in the same directory renames the project but adds no row
    projects.add_project("/home/u/Game/Other.uproject");
    let grid = projects.grid();
    assert_eq!(grid.len(), 1);
    assert_eq!(grid[0].name.as_deref(), Some("Game"));
    assert_eq!(projects.projects(), vec![("/home/u/Game".to_string(), "Other".to_string())]);

    projects.update(Msg::AddProject { uproject_file: "/home/u/Shooter/Shooter.uproject".to_string() });
    assert_eq!(projects.grid().len(), 2);
}

#[test]
fn add_project_without_name_changes_nothing() {
    let mut projects = EpicProjectsBox::new();
    projects.add_project("/");
    projects.add_project("");
    assert_eq!(projects.grid().len(), 0);
}

#[test]
fn remove_item_drops_row_and_directory() {
    let mut projects = EpicProjectsBox::new();
    projects.add_project("/p/A/A.uproject");
    projects.add_project("/p/B/B.uproject");
    let collapse = projects.remove_item(0, &Some("/p/A/A.uproject".to_string()));
    assert!(collapse);
    assert_eq!(projects.projects(), vec![("/p/B".to_string(), "B".to_string())]);
    let collapse = projects.remove_item(0, &Some("/p/A/A.uproject".to_string()));
    assert!(!collapse);
    assert_eq!(projects.grid().len(), 0);
    // the directory can be found again afterwards
    projects.add_project("/p/A/A.uproject");
    assert_eq!(projects.grid().len(), 1);
}

#[test]
fn remove_invalid_keeps_present_rows() {
    let mut projects = EpicProjectsBox::new();
    projects.add_project("/p/A/A.uproject");
    projects.add_project("/p/B/B.uproject");
    projects.add_project("/p/C/C.uproject");
    let collapse = projects.remove_invalid(&vec![true, false, true], &Some("/p/C/C.uproject".to_string()));
    assert!(!collapse);
    let paths: Vec<String> = projects.grid().into_iter().map(|d| d.path.unwrap()).collect();
    assert_eq!(paths, vec!["/p/A/A.uproject".to_string(), "/p/C/C.uproject".to_string()]);
    let collapse = projects.remove_invalid(&vec![false, true], &Some("/p/A/A.uproject".to_string()));
    assert!(collapse);
    assert_eq!(projects.projects(), vec![("/p/C".to_string(), "C".to_string())]);
}

#[test]
fn project_selected_picks_and_expands() {
    let mut projects = EpicProjectsBox::new();
    assert!(!projects.expanded());
    assert_eq!(projects.selected(), None);
    assert_eq!(projects.selected_uproject(), None);
    assert_eq!(projects.details_position(), None);
    let show = projects.project_selected(
        &ProjectData { path: Some("/p/A/A.uproject".to_string()), name: None },
        Some("{\"EngineAssociation\":\"5.1\"}".to_string()),
        3,
    );
    assert!(show);
    assert!(projects.expanded());
    assert_eq!(projects.selected(), Some("/p/A/A.uproject".to_string()));
    assert_eq!(projects.selected_uproject(), Some("{\"EngineAssociation\":\"5.1\"}".to_string()));
    assert_eq!(projects.details_position(), Some(3));
    let show = projects.project_selected(&ProjectData { path: Some("/p/B/B.uproject".to_string()), name: None }, None, 0);
    assert!(!show);
    assert_eq!(projects.selected_uproject(), None);
    assert_eq!(projects.selected(), Some("/p/B/B.uproject".to_string()));
    assert_eq!(projects.details_position(), Some(0));
    projects.set_expanded(false);
    projects.set_selected(None);
    assert!(!projects.expanded());
    assert_eq!(projects.selected(), None);
}

#[test]
fn project_order_by_lowercase_name() {
    assert_eq!(compare_projects(&named(Some("abc")), &named(Some("ABD"))), NameOrder::Smaller);
    assert_eq!(compare_projects(&named(Some("ABD")), &named(Some("abc"))), NameOrder::Larger);
    assert_eq!(compare_projects(&named(Some("Game")), &named(Some("gAME"))), NameOrder::Equal);
    assert_eq!(compare_projects(&named(Some("ab")), &named(Some("abc"))), NameOrder::Smaller);
    assert_eq!(compare_projects(&named(None), &named(Some("a"))), NameOrder::Larger);
    assert_eq!(compare_projects(&named(None), &named(None)), NameOrder::Larger);
    assert_eq!(compare_projects(&named(Some("a")), &named(None)), NameOrder::Smaller);
}

#[test]
fn compare_text_agrees_with_string_order() {
    let words = ["", "a", "b", "ab", "Ab", "é", "z", "zz", "日本", "abc"];
    for x in words.iter() {
        for y in words.iter() {
            let expected = match x.cmp(y) {
                std::cmp::Ordering::Less => NameOrder::Smaller,
                std::cmp::Ordering::Equal => NameOrder::Equal,
                std::cmp::Ordering::Greater => NameOrder::Larger,
            };
            assert_eq!(compare_text(x, y), expected);
        }
    }
}

#[test]
fn find_uproject_takes_first_project_file() {
    let entries = vec![
        DirEntry { path: "/p/A/Content".to_string(), is_file: false },
        DirEntry { path: "/p/A/dir.uproject".to_string(), is_file: false },
        DirEntry { path: "/p/A/README.md".to_string(), is_file: true },
        DirEntry { path: "/p/A/A.uproject".to_string(), is_file: true },
        DirEntry { path: "/p/A/B.uproject".to_string(), is_file: true },
    ];
    assert_eq!(find_uproject(&entries), Some(3));
    assert_eq!(find_uproject(&entries[..3].to_vec()), None);
}

#[test]
fn refresh_only_when_idle() {
    assert!(EpicProjectsBox::can_be_refreshed(0, 0));
    assert!(!EpicProjectsBox::can_be_refreshed(1, 0));
    assert!(!EpicProjectsBox::can_be_refreshed(0, 2));
}

#[test]
fn projects_property_names() {
    assert_eq!(ProjectsBoxProperty::from_name("expanded"), Some(ProjectsBoxProperty::Expanded));
    assert_eq!(ProjectsBoxProperty::from_name("selected"), Some(ProjectsBoxProperty::Selected));
    assert_eq!(ProjectsBoxProperty::from_name("select"), None);
    assert_eq!(ProjectsBoxProperty::Selected.name(), "selected");
}

#[test]
fn scan_reports_directories_with_a_project_file() {
    let listing = vec![
        DirEntry { path: "/p/A/Config".to_string(), is_file: false },
        DirEntry { path: "/p/A/A.uproject".to_string(), is_file: true },
    ];
    assert_eq!(
        scan_entry(true, &listing),
        ScanAction::Report(Msg::AddProject { uproject_file: "/p/A/A.uproject".to_string() })
    );
    assert_eq!(scan_entry(true, &listing[..1].to_vec()), ScanAction::Descend);
    assert_eq!(scan_entry(false, &listing), ScanAction::Skip);
}

#[test]
fn projects_property_read_after_write() {
    let mut projects = EpicProjectsBox::new();
    projects.add_project("/p/A/A.uproject");
    projects.set_property(ProjectsBoxValue::Selected(Some("/p/A/A.uproject".to_string())));
    assert_eq!(
        projects.property(ProjectsBoxProperty::Selected),
        ProjectsBoxValue::Selected(Some("/p/A/A.uproject".to_string()))
    );
    assert_eq!(projects.property(ProjectsBoxProperty::Expanded), ProjectsBoxValue::Expanded(false));
    projects.set_property(ProjectsBoxValue::Expanded(true));
    assert_eq!(projects.property(ProjectsBoxProperty::Expanded), ProjectsBoxValue::Expanded(true));
    assert_eq!(ProjectsBoxValue::Expanded(true).property(), ProjectsBoxProperty::Expanded);
    assert_eq!(projects.grid().len(), 1);
    assert!(EpicProjectsBox::can_be_refreshed(0, 0));
    assert!(!EpicProjectsBox::can_be_refreshed(usize::MAX, 1));
}
