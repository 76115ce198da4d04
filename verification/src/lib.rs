//! Verified core of the Apple PMP (power management processor) v1 drivers:
//! the mailbox message format, the start-up handshake, the IOMMU
//! initialisation plan and shared-memory layout, and the power-state
//! reporting logic of the report-entry driver.

pub mod error;
pub mod message;
pub mod protocol;
pub mod init_map;
pub mod shmem;
pub mod bridge;
pub mod report;
