use pandagen::device_manager::{
    AllowAllDrivers, DenyAllDrivers, DeviceClass, DeviceDescriptor, DeviceId, DeviceManager,
    DeviceManagerError, DeviceResource, DriverId,
};

#[test]
fn test_driver_attach_and_open() {
    let mut manager = DeviceManager::new(Box::new(AllowAllDrivers));
    let driver = manager.register_driver("keyboard");
    let device = manager.register_device(
        DeviceDescriptor::new(DeviceClass::Input, "Panda", "Keyboard")
            .with_resource(DeviceResource::IoPort { base: 0x60, len: 4 }),
    );

    let cap = manager.attach_driver(driver, device).unwrap();
    let handle = manager.open_device(&cap).unwrap();
    assert_eq!(handle.id(), cap.token());
}

#[test]
fn test_driver_policy_denies() {
    let mut manager = DeviceManager::new(Box::new(DenyAllDrivers));
    let driver = manager.register_driver("gpu");
    let device = manager.register_device(DeviceDescriptor::new(
        DeviceClass::Display,
        "Panda",
        "Display",
    ));

    let result = manager.attach_driver(driver, device);
    assert!(matches!(result, Err(DeviceManagerError::PolicyDenied(_))));
}

#[test]
fn unknown_driver_or_device_is_refused() {
    let mut manager = DeviceManager::new(Box::new(AllowAllDrivers));
    let driver = manager.register_driver("net");
    let device = manager.register_device(DeviceDescriptor::new(DeviceClass::Network, "Panda", "Nic"));
    let stranger = DriverId::new();
    assert_eq!(
        manager.attach_driver(stranger, device),
        Err(DeviceManagerError::DriverNotRegistered(stranger))
    );
    let missing = DeviceId::new();
    assert_eq!(
        manager.attach_driver(driver, missing),
        Err(DeviceManagerError::DeviceNotFound(missing))
    );
}

#[test]
fn reattaching_revokes_the_old_capability() {
    let mut manager = DeviceManager::new(Box::new(AllowAllDrivers));
    let driver = manager.register_driver("disk");
    let device = manager.register_device(DeviceDescriptor::new(DeviceClass::Storage, "Panda", "Disk"));
    let first = manager.attach_driver(driver, device).unwrap();
    let second = manager.attach_driver(driver, device).unwrap();
    assert_eq!(first.token(), 1);
    assert_eq!(second.token(), 2);
    assert_eq!(manager.open_device(&first), Err(DeviceManagerError::InvalidCapability));
    assert_eq!(manager.open_device(&second).unwrap().id(), 2);
}

#[test]
fn device_manager_error_messages() {
    assert_eq!(
        DeviceManagerError::PolicyDenied("no".to_string()).to_string(),
        "Policy denied driver: no"
    );
    assert_eq!(DeviceManagerError::InvalidCapability.to_string(), "Invalid driver capability");
    let id = DriverId::new();
    let text = DeviceManagerError::DriverNotRegistered(id).to_string();
    assert!(text.starts_with("Driver not registered: DriverId("));
    assert_eq!(text.len(), "Driver not registered: DriverId(".len() + 36 + 1);
    assert!(DeviceManagerError::DeviceNotFound(DeviceId::new())
        .to_string()
        .starts_with("Device not found: DeviceId("));
}
