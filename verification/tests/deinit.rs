use widgets::animated_visibility::AnimatedVisibility;
use widgets::deinit::{Deinit, DeinitAction};
use widgets::types::{WidgetClass, WidgetKey};

fn widget(key: Option<&str>, class: &str) -> AnimatedVisibility<(), ()> {
    AnimatedVisibility {
        id: 5,
        key: key.map(|k| WidgetKey { name: k.to_string() }),
        class: WidgetClass { name: class.to_string() },
        visibility_state: None,
        primary_animation: None,
        secondary_animation: None,
        primary_spatial_change: None,
        secondary_spatial_change: None,
        child: None,
    }
}

#[test]
fn deinit_with_key_and_class() {
    let mut w = widget(Some("k"), "button");
    let actions = w.deinit(&mut ());
    assert_eq!(actions.len(), 3);
    assert!(matches!(&actions[0], DeinitAction::UnregisterKey(k) if k.name == "k"));
    assert!(matches!(&actions[1], DeinitAction::UnsubscribeStyle(5, c) if c.name == "button"));
    assert!(matches!(&actions[2], DeinitAction::ClearWidgetResources(5)));
}

#[test]
fn deinit_without_key_and_class_only_clears() {
    let mut w = widget(None, "");
    let actions = w.deinit(&mut ());
    assert_eq!(actions.len(), 1);
    assert!(matches!(&actions[0], DeinitAction::ClearWidgetResources(5)));
}

struct Recorder {
    key: Option<WidgetKey>,
    log: Vec<&'static str>,
}

impl widgets::widget::WidgetInformation for Recorder {
    fn id_of(&self) -> u64 {
        3
    }
    fn key_of(&self) -> Option<WidgetKey> {
        self.key.clone()
    }
    fn class_of(&self) -> WidgetClass {
        WidgetClass { name: String::new() }
    }
    fn get_id(&self) -> u64 {
        3
    }
    fn set_id(&mut self, _id: u64) {}
    fn get_key(&self) -> Option<&WidgetKey> {
        self.key.as_ref()
    }
    fn get_class(&self) -> WidgetClass {
        WidgetClass { name: String::new() }
    }
}

impl Deinit<Vec<&'static str>> for Recorder {
    fn on_deinit(&mut self, context: &mut Vec<&'static str>) {
        context.push("on_deinit");
        self.log.push("hook");
        self.key = None;
    }
}

#[test]
fn deinit_runs_hook_first_and_clears_last() {
    let mut w = Recorder { key: Some(WidgetKey { name: "gone".to_string() }), log: vec![] };
    let mut context = vec![];
    let actions = w.deinit(&mut context);
    assert_eq!(context, vec!["on_deinit"]);
    assert_eq!(w.log, vec!["hook"]);
    // the key that the hook dropped is not unregistered
    assert_eq!(actions.len(), 1);
    assert!(matches!(&actions[0], DeinitAction::ClearWidgetResources(3)));
}
