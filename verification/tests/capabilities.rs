use eth_driver_interface::device::{
    Channel, Checksum, ChecksumCapabilities, DeviceCapabilities, EthDevice, Medium,
};
use eth_driver_interface::link::Link;

#[test]
fn device_reports_ethernet_without_checksums() {
    let mut link = Link::new(Default::default(), Default::default());
    let device = EthDevice::new(Channel { index: 2 }, &mut link);
    assert_eq!(device.driver_channel(), Channel { index: 2 });
    assert_eq!(
        device.capabilities(),
        DeviceCapabilities {
            medium: Medium::Ethernet,
            max_transmission_unit: 1500,
            max_burst_size: None,
            checksum: ChecksumCapabilities {
                ipv4: Checksum::Ignored,
                udp: Checksum::Ignored,
                tcp: Checksum::Ignored,
                icmpv4: Checksum::Ignored,
            },
        }
    );
}
