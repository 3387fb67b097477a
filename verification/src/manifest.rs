//! The declarations that make up the manifest of one component instance.

use vstd::prelude::*;
use crate::capability::{Capability, CapabilityView};

verus! {

/// Where a granted or surfaced capability comes from.
#[derive(Debug, Clone, PartialEq, Eq)]
pub enum Source {
    /// The declaring instance provides the capability itself.
    Local,
    /// The declaring instance passes on what it receives from its own parent
    /// under the same capability identity. Meaningful in grants only.
    Forwarded,
    /// A named child of the declaring instance surfaces the capability.
    FromChild(String),
}

pub enum SourceView {
    Local,
    Forwarded,
    FromChild(Seq<char>),
}

impl View for Source {
    type V = SourceView;

    open spec fn view(&self) -> SourceView {
        match self {
            Source::Local => SourceView::Local,
            Source::Forwarded => SourceView::Forwarded,
            Source::FromChild(name) => SourceView::FromChild(name@),
        }
    }
}

/// A declared requirement to consume a capability. `local_path` is where the
/// importer mounts it, and plays no part in routing.
#[derive(Debug, Clone, PartialEq, Eq)]
pub struct ImportDecl {
    pub capability: Capability,
    pub local_path: String,
}

pub struct ImportView {
    pub capability: CapabilityView,
    pub local_path: Seq<char>,
}

impl View for ImportDecl {
    type V = ImportView;

    open spec fn view(&self) -> ImportView {
        ImportView { capability: self.capability@, local_path: self.local_path@ }
    }
}

/// One destination of a grant: the child that receives the capability and
/// the path under which that child sees it.
#[derive(Debug, Clone, PartialEq, Eq)]
pub struct FanoutTarget {
    pub target_path: String,
    pub child_name: String,
}

pub struct FanoutView {
    pub target_path: Seq<char>,
    pub child_name: Seq<char>,
}

impl View for FanoutTarget {
    type V = FanoutView;

    open spec fn view(&self) -> FanoutView {
        FanoutView { target_path: self.target_path@, child_name: self.child_name@ }
    }
}

/// A declared willingness to route a capability to one or more children.
/// `capability` is the identity under which the source knows it; each fanout
/// entry renames it for one child.
#[derive(Debug, Clone, PartialEq, Eq)]
pub struct GrantDecl {
    pub capability: Capability,
    pub source: Source,
    pub fanout: Vec<FanoutTarget>,
}

pub struct GrantView {
    pub capability: CapabilityView,
    pub source: SourceView,
    pub fanout: Seq<FanoutView>,
}

impl View for GrantDecl {
    type V = GrantView;

    open spec fn view(&self) -> GrantView {
        GrantView {
            capability: self.capability@,
            source: self.source@,
            fanout: Seq::new(self.fanout@.len(), |i: int| self.fanout@[i]@),
        }
    }
}

/// A declared willingness to expose a capability to the instance's parent,
/// which sees it under `target_path`.
#[derive(Debug, Clone, PartialEq, Eq)]
pub struct SurfaceDecl {
    pub capability: Capability,
    pub source: Source,
    pub target_path: String,
}

pub struct SurfaceView {
    pub capability: CapabilityView,
    pub source: SourceView,
    pub target_path: Seq<char>,
}

impl View for SurfaceDecl {
    type V = SurfaceView;

    open spec fn view(&self) -> SurfaceView {
        SurfaceView {
            capability: self.capability@,
            source: self.source@,
            target_path: self.target_path@,
        }
    }
}

/// When a child instance is started.
#[derive(Debug, Clone, Copy, PartialEq, Eq, Structural)]
pub enum StartupPolicy {
    Lazy,
    Eager,
}

/// A child of an instance: its name, an opaque launch identity, and its
/// startup policy.
#[derive(Debug, Clone, PartialEq, Eq)]
pub struct ChildSpec {
    pub name: String,
    pub reference: String,
    pub startup: StartupPolicy,
}

pub struct ChildView {
    pub name: Seq<char>,
    pub reference: Seq<char>,
    pub startup: StartupPolicy,
}

impl View for ChildSpec {
    type V = ChildView;

    open spec fn view(&self) -> ChildView {
        ChildView { name: self.name@, reference: self.reference@, startup: self.startup }
    }
}

/// Everything one instance declares.
#[derive(Debug, Clone, PartialEq, Eq)]
pub struct InstanceManifest {
    /// Whether the instance runs a program, and so can itself be the source
    /// of a capability.
    pub executable: bool,
    pub imports: Vec<ImportDecl>,
    pub grants: Vec<GrantDecl>,
    pub surfaces: Vec<SurfaceDecl>,
    pub children: Vec<ChildSpec>,
}

pub struct ManifestView {
    pub executable: bool,
    pub imports: Seq<ImportView>,
    pub grants: Seq<GrantView>,
    pub surfaces: Seq<SurfaceView>,
    pub children: Seq<ChildView>,
}

impl View for InstanceManifest {
    type V = ManifestView;

    open spec fn view(&self) -> ManifestView {
        ManifestView {
            executable: self.executable,
            imports: Seq::new(self.imports@.len(), |i: int| self.imports@[i]@),
            grants: Seq::new(self.grants@.len(), |i: int| self.grants@[i]@),
            surfaces: Seq::new(self.surfaces@.len(), |i: int| self.surfaces@[i]@),
            children: Seq::new(self.children@.len(), |i: int| self.children@[i]@),
        }
    }
}

/// The capability that a grant shows to the child named in one of its fanout
/// entries: the grant's kind under the entry's target path.
pub open spec fn advertised_by_grant(grant: GrantView, entry: FanoutView) -> CapabilityView {
    CapabilityView { kind: grant.capability.kind, path: entry.target_path }
}

/// The capability that a surface declaration shows to the parent.
pub open spec fn advertised_by_surface(surface: SurfaceView) -> CapabilityView {
    CapabilityView { kind: surface.capability.kind, path: surface.target_path }
}

} // verus!
