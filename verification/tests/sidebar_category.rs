use epic_asset_manager::sidebar_category::{EpicSidebarCategory, SidebarCategoryProperty};

#[test]
fn first_sidebar_is_kept() {
    let mut category: EpicSidebarCategory<u32> = EpicSidebarCategory::new();
    assert_eq!(category.sidebar(), None);
    category.set_sidebar(1);
    category.set_sidebar(2);
    assert_eq!(category.sidebar(), Some(&1));
}

#[test]
fn category_properties() {
    let mut category: EpicSidebarCategory<()> = EpicSidebarCategory::new();
    assert_eq!(category.property(SidebarCategoryProperty::Title), None);
    category.set_property(SidebarCategoryProperty::Title, Some("All".to_string()));
    category.set_property(SidebarCategoryProperty::IconName, Some("view-grid-symbolic".to_string()));
    assert_eq!(category.property(SidebarCategoryProperty::Title), Some("All".to_string()));
    assert_eq!(category.property(SidebarCategoryProperty::IconName), Some("view-grid-symbolic".to_string()));
    assert_eq!(category.property(SidebarCategoryProperty::Filter), None);
    assert_eq!(SidebarCategoryProperty::from_name("icon-name"), Some(SidebarCategoryProperty::IconName));
    assert_eq!(SidebarCategoryProperty::from_name("icon_name"), None);
    assert_eq!(SidebarCategoryProperty::Filter.name(), "filter");
}
