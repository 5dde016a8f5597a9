//! Where the tools of a JDK and of the Android SDK lie.
use vstd::prelude::*;

use crate::paths::{join, join_path};

verus! {

/// A JDK installation.
#[derive(Debug)]
pub struct Jdk {
    root: String,
}

/// An Android SDK platform directory, such as `platforms/android-36`.
#[derive(Debug)]
pub struct AndroidPlatform {
    root: String,
}

/// An Android SDK build-tools directory, such as `build-tools/36.0.0`.
#[derive(Debug)]
pub struct AndroidBuildTools {
    root: String,
}

impl View for Jdk {
    type V = Seq<char>;

    closed spec fn view(&self) -> Seq<char> {
        self.root@
    }
}

impl View for AndroidPlatform {
    type V = Seq<char>;

    closed spec fn view(&self) -> Seq<char> {
        self.root@
    }
}

impl View for AndroidBuildTools {
    type V = Seq<char>;

    closed spec fn view(&self) -> Seq<char> {
        self.root@
    }
}

impl Jdk {
    /// The JDK installed at `at`.
    pub fn new(at: String) -> (r: Jdk)
        ensures
            r@ == at@,
    {
        Jdk { root: at }
    }

    /// The installation directory.
    pub fn root(&self) -> (r: &String)
        ensures
            r@ == self@,
    {
        &self.root
    }

    /// `bin/jar`
    pub fn jar(&self) -> (r: String)
        ensures
            r@ == join(self@, "bin/jar"@),
    {
        join_path(self.root.as_str(), "bin/jar")
    }

    /// `bin/javac`
    pub fn javac(&self) -> (r: String)
        ensures
            r@ == join(self@, "bin/javac"@),
    {
        join_path(self.root.as_str(), "bin/javac")
    }

    /// `bin/java`
    pub fn jvm(&self) -> (r: String)
        ensures
            r@ == join(self@, "bin/java"@),
    {
        join_path(self.root.as_str(), "bin/java")
    }

    /// `bin/jmod`
    pub fn jmod(&self) -> (r: String)
        ensures
            r@ == join(self@, "bin/jmod"@),
    {
        join_path(self.root.as_str(), "bin/jmod")
    }

    /// `bin/jlink`
    pub fn jlink(&self) -> (r: String)
        ensures
            r@ == join(self@, "bin/jlink"@),
    {
        join_path(self.root.as_str(), "bin/jlink")
    }
}

impl AndroidPlatform {
    /// The platform directory at `at`.
    pub fn new(at: String) -> (r: AndroidPlatform)
        ensures
            r@ == at@,
    {
        AndroidPlatform { root: at }
    }

    /// The platform directory.
    pub fn root(&self) -> (r: &String)
        ensures
            r@ == self@,
    {
        &self.root
    }

    /// `android.jar`, the API to compile against.
    pub fn android_jar(&self) -> (r: String)
        ensures
            r@ == join(self@, "android.jar"@),
    {
        join_path(self.root.as_str(), "android.jar")
    }

    /// `core-for-system-modules.jar`, the Java core library of the platform.
    pub fn platform_modules(&self) -> (r: String)
        ensures
            r@ == join(self@, "core-for-system-modules.jar"@),
    {
        join_path(self.root.as_str(), "core-for-system-modules.jar")
    }
}

impl AndroidBuildTools {
    /// The build-tools directory at `at`.
    pub fn new(at: String) -> (r: AndroidBuildTools)
        ensures
            r@ == at@,
    {
        AndroidBuildTools { root: at }
    }

    /// The build-tools directory.
    pub fn root(&self) -> (r: &String)
        ensures
            r@ == self@,
    {
        &self.root
    }

    /// `aapt`
    pub fn aapt(&self) -> (r: String)
        ensures
            r@ == join(self@, "aapt"@),
    {
        join_path(self.root.as_str(), "aapt")
    }

    /// `apksigner`
    pub fn apksigner(&self) -> (r: String)
        ensures
            r@ == join(self@, "apksigner"@),
    {
        join_path(self.root.as_str(), "apksigner")
    }

    /// `lib/apksigner.jar`, which `java -jar` runs. The signing step runs
    /// apksigner through this jar; the build-tools layout puts it there, and
    /// the choice of this path is this library's.
    pub fn apksigner_jar(&self) -> (r: String)
        ensures
            r@ == join(self@, "lib/apksigner.jar"@),
    {
        join_path(self.root.as_str(), "lib/apksigner.jar")
    }

    /// `lib/d8.jar`
    pub fn d8_jar(&self) -> (r: String)
        ensures
            r@ == join(self@, "lib/d8.jar"@),
    {
        join_path(self.root.as_str(), "lib/d8.jar")
    }
}

} // verus!
