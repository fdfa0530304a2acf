use peekaboo::errors::PeekabooError;
use peekaboo::models::{WindowBounds, WindowData, WindowDetailOption};
use peekaboo::window_manager::{select_target_window, WindowManager};

#[test]
fn test_window_manager_creation() {
    let _manager = WindowManager::new();
    // Just test that we can create the manager
    assert!(true);
}

#[test]
fn test_parse_include_details() {
    let options = WindowManager::parse_include_details(Some("off_screen,bounds,ids"));
    assert_eq!(options.len(), 3);
    assert!(options.contains(&WindowDetailOption::OffScreen));
    assert!(options.contains(&WindowDetailOption::Bounds));
    assert!(options.contains(&WindowDetailOption::Ids));

    let empty_options = WindowManager::parse_include_details(None);
    assert!(empty_options.is_empty());

    let partial_options = WindowManager::parse_include_details(Some("bounds"));
    assert_eq!(partial_options.len(), 1);
    assert!(partial_options.contains(&WindowDetailOption::Bounds));
}

#[test]
fn window_manager_test_window_bounds_creation() {
    let bounds = WindowBounds::new(100, 200, 800, 600);
    assert_eq!(bounds.x_coordinate, 100);
    assert_eq!(bounds.y_coordinate, 200);
    assert_eq!(bounds.width, 800);
    assert_eq!(bounds.height, 600);
}

#[test]
fn parse_include_details_keeps_each_keyword_once() {
    let options = WindowManager::parse_include_details(Some(" bounds , bounds,ids,junk"));
    assert_eq!(options, vec![WindowDetailOption::Bounds, WindowDetailOption::Ids]);
}

#[test]
fn detail_keywords_parse_exactly() {
    assert_eq!(WindowDetailOption::from_str("off_screen"), Some(WindowDetailOption::OffScreen));
    assert_eq!(WindowDetailOption::from_str("bounds"), Some(WindowDetailOption::Bounds));
    assert_eq!(WindowDetailOption::from_str("ids"), Some(WindowDetailOption::Ids));
    assert_eq!(WindowDetailOption::from_str("everything"), None);
}

#[test]
fn window_listing_respects_detail_flags() {
    let manager = WindowManager::new();
    let infos = manager
        .get_windows_info_for_app(42, false, true, false)
        .expect("the stand-in backend always answers");
    assert_eq!(infos.len(), 1);
    assert_eq!(infos[0].window_title, "Mock Window");
    assert_eq!(infos[0].window_id, None);
    assert_eq!(infos[0].window_index, Some(0));
    assert!(infos[0].bounds.is_some());
    assert_eq!(infos[0].is_on_screen, Some(true));
}

#[test]
fn window_by_index_rejects_out_of_range() {
    let manager = WindowManager::new();
    let w = manager.get_window_by_index(42, 0).expect("index 0 exists");
    assert_eq!(w.window_id, 12345);

    match manager.get_window_by_index(42, 3) {
        Err(PeekabooError::InvalidWindowIndex { index }) => assert_eq!(index, 3),
        other => panic!("expected InvalidWindowIndex, got {:?}", other),
    }
}

#[test]
fn target_selection_follows_title_then_index_then_front() {
    let mk = |id: u32, title: &str, idx: i32| WindowData {
        window_id: id,
        title: title.to_string(),
        bounds: WindowBounds::new(0, 0, 10, 10),
        is_on_screen: true,
        window_index: idx,
    };
    let windows = vec![mk(1, "Editor", 0), mk(2, "Browser", 1), mk(3, "Editor Notes", 2)];

    let w = select_target_window(&windows, &Some("Editor".to_string()), Some(1))
        .expect("the title wins over the index");
    assert_eq!(w.window_id, 1);

    let w = select_target_window(&windows, &None, Some(1)).expect("index in range");
    assert_eq!(w.window_id, 2);

    let w = select_target_window(&windows, &None, None).expect("frontmost by default");
    assert_eq!(w.window_id, 1);

    match select_target_window(&windows, &None, Some(9)) {
        Err(PeekabooError::InvalidWindowIndex { index }) => assert_eq!(index, 9),
        other => panic!("expected InvalidWindowIndex, got {:?}", other),
    }

    assert!(matches!(
        select_target_window(&windows, &Some("Absent".to_string()), None),
        Err(PeekabooError::WindowNotFound)
    ));
}

#[test]
fn window_by_title_matches_substrings() {
    let manager = WindowManager::new();
    let w = manager.get_window_by_title(42, "Mock").expect("substring of the title");
    assert_eq!(w.window_id, 12345);

    assert!(matches!(
        manager.get_window_by_title(42, "Absent"),
        Err(PeekabooError::WindowNotFound)
    ));
}
