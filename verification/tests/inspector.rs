use julie_extract_artifact::store::factory::StoreConnectionFactory;
use julie_extract_artifact::store::inspector::{
    CapacityProvider, MaintenanceClock, MaintenanceInspector, DEFAULT_WINDOW_SIZE,
};
use julie_extract_artifact::store::layout::StoreLayout;

struct FixedClock(i64);

impl MaintenanceClock for FixedClock {
    fn now_ms(&self) -> i64 {
        self.0
    }
}

struct FixedCapacity(u64);

impl CapacityProvider for FixedCapacity {
    fn free_bytes(&self, _path: &str) -> Result<u64, std::io::Error> {
        Ok(self.0)
    }

    fn staged_generation_bytes(&self, _path: &str) -> Result<u64, std::io::Error> {
        Ok(0)
    }
}

fn inspector() -> MaintenanceInspector<FixedClock, FixedCapacity> {
    let layout = StoreLayout::open_named_generation(
        "/stores/family",
        "gen-001",
        "/stores/family/gen-001",
        "/stores/family/gen-001/store.db",
        "/stores/family/coordinator.db",
        "/stores/family/spool",
        "/stores/family/scratch",
        "/stores/family/gen-001/bases",
    )
    .expect("a layout inside its root");
    let factory = StoreConnectionFactory::new(layout, "family", "2.0.0");
    MaintenanceInspector::new(factory, FixedClock(1_000), FixedCapacity(4096))
}

#[test]
fn inspector_starts_with_the_default_window() {
    let i = inspector();
    assert_eq!(i.window_size(), DEFAULT_WINDOW_SIZE);
    assert_eq!(i.window_size(), 512);
    assert_eq!(i.clock().now_ms(), 1_000);
    assert_eq!(i.capacity().free_bytes("/stores/family").unwrap(), 4096);
    assert_eq!(i.factory().binary_version(), "2.0.0");
}

#[test]
fn window_size_is_brought_into_range() {
    assert_eq!(inspector().with_window_size(0).window_size(), 1);
    assert_eq!(inspector().with_window_size(1).window_size(), 1);
    assert_eq!(inspector().with_window_size(250).window_size(), 250);
    assert_eq!(inspector().with_window_size(1000).window_size(), 1000);
    assert_eq!(inspector().with_window_size(5000).window_size(), 1000);
}
